//! Workflows: calling, planning and carrying them out.
use miliastra::config::checks::PointConfig;
use miliastra::config::checks::RectConfig;
use miliastra::config::checks::Single;
use miliastra::custom_workflow::calling::CustomWorkflowCommand;
use miliastra::custom_workflow::calling::CustomWorkflowSummary;
use miliastra::custom_workflow::calling::joined_command;
use miliastra::custom_workflow::context::CustomWorkflowInvocation;
use miliastra::custom_workflow::context::WorkflowContext;
use miliastra::custom_workflow::definition::CustomWorkflowConfig;
use miliastra::custom_workflow::definition::CustomWorkflowDefinition;
use miliastra::custom_workflow::definition::CustomWorkflowStep;
use miliastra::custom_workflow::execution::CustomWorkflowExecutionPort;
use miliastra::custom_workflow::execution::CustomWorkflowService;
use miliastra::custom_workflow::execution::FreshMessageOutcome;
use miliastra::custom_workflow::execution::WorkflowCalls;
use miliastra::custom_workflow::execution::WorkflowCompletion;
use miliastra::custom_workflow::operation::WorkflowOperation;
use miliastra::custom_workflow::operation::WorkflowPixelStability;
use miliastra::custom_workflow::operation::WorkflowPoint;
use miliastra::custom_workflow::operation::WorkflowRect;
use miliastra::custom_workflow::operation::operation_label;
use miliastra::custom_workflow::planning::AcceptedText;
use miliastra::custom_workflow::planning::MIN_POLL_MS;
use miliastra::custom_workflow::planning::WorkflowConfirmation;
use miliastra::custom_workflow::planning::WorkflowConfirmationDecision;
use miliastra::custom_workflow::planning::WorkflowDefaults;
use miliastra::custom_workflow::planning::is_confirmation_message;
use miliastra::custom_workflow::planning::parse_confirmation;

fn single(value: f32) -> Single {
    Single { bits: value.to_bits() }
}

struct RecordingPort {
    events: Vec<String>,
    confirmation: FreshMessageOutcome,
}

impl RecordingPort {
    fn new(confirmation: FreshMessageOutcome) -> Self {
        Self {
            events: Vec::new(),
            confirmation,
        }
    }
}

impl CustomWorkflowExecutionPort for RecordingPort {
    fn calls(&self) -> WorkflowCalls {
        unreachable!("stands in proofs only")
    }

    fn send_hall(&mut self, message: &str) -> Result<(), String> {
        self.events.push(format!("send:{message}"));
        Ok(())
    }

    fn wait_for_fresh_message(
        &mut self,
        confirmation: &WorkflowConfirmation,
        accepts_text: AcceptedText,
    ) -> Result<FreshMessageOutcome, String> {
        self.events.push(format!(
            "wait:{}:{}",
            confirmation.timeout_ms, confirmation.poll_ms
        ));
        if let FreshMessageOutcome::Message(message) = &self.confirmation {
            assert!(accepts_text.accepts(message));
        }
        Ok(self.confirmation.clone())
    }

    fn execute_operation(
        &mut self,
        workflow: &str,
        operation: WorkflowOperation,
    ) -> Result<(), String> {
        self.events.push(format!(
            "operation:{workflow}:{}",
            operation_label(&operation)
        ));
        Ok(())
    }
}

fn defaults() -> WorkflowDefaults {
    WorkflowDefaults {
        default_timeout_ms: 4_000,
        default_poll_ms: 20,
        default_step_wait_ms: 300,
        decision_timeout_ms: 20_000,
        decision_poll_ms: 2_000,
        after_activate_ms: 80,
        clipboard_hold_ms: 120,
        stability_mean_threshold: single(1.5),
        stability_changed_ratio_threshold: single(0.02),
    }
}

fn workflow() -> CustomWorkflowDefinition {
    CustomWorkflowDefinition {
        enabled: true,
        name: "example".to_string(),
        commands: vec!["测试流程".to_string()],
        allow_args: true,
        message_types: vec!["blue".to_string()],
        confirm_before_run: false,
        confirm_message: String::new(),
        confirm_message_types: vec!["blue".to_string()],
        confirm_timeout_ms: None,
        confirm_poll_ms: None,
        steps: vec![step("key")],
        success_message: String::new(),
    }
}

fn config(workflow: CustomWorkflowDefinition) -> CustomWorkflowConfig {
    CustomWorkflowConfig {
        enabled: true,
        default_threshold: single(0.9),
        wait_template_absent_stable_default: true,
        max_hold_key_seconds: 10,
        templates: vec![("button".to_string(), "assets/button.png".to_string())],
        workflows: vec![workflow],
    }
}

fn step(kind: &str) -> CustomWorkflowStep {
    CustomWorkflowStep {
        step_type: kind.to_string(),
        template: None,
        region: None,
        point: None,
        click_offset: None,
        key: Some("F".to_string()),
        target: None,
        text: None,
        message: None,
        threshold: None,
        timeout_ms: None,
        poll_ms: None,
        wait_ms: None,
        hold_seconds_arg: None,
        stable_after_absent: None,
    }
}

fn invocation(args: &str) -> CustomWorkflowInvocation {
    CustomWorkflowInvocation {
        command: CustomWorkflowCommand {
            name: "测试流程".to_string(),
            workflow: "example".to_string(),
            args: args.to_string(),
        },
        username: "用户".to_string(),
        message_type: "blue".to_string(),
        user_command: joined_command("@测试流程", args),
    }
}

fn prepared_operation(kind: &str) -> WorkflowOperation {
    let mut workflow = workflow();
    let mut value = step(kind);
    match kind {
        "sleep" | "wait" => value.wait_ms = Some(10),
        "click" => value.point = Some(PointConfig::new(1, 2)),
        "click_template" | "wait_template" | "wait_template_absent" => {
            value.template = Some("button".to_string());
            value.region = Some(RectConfig {
                x: 1,
                y: 2,
                width: 3,
                height: 4,
            });
        }
        "wait_stable" | "wait_pixels_stable" => {
            value.region = Some(RectConfig {
                x: 1,
                y: 2,
                width: 3,
                height: 4,
            });
        }
        "click_text" | "wait_text" | "paste" | "paste_text" => {
            value.text = Some("文本".to_string());
            if matches!(kind, "click_text" | "wait_text") {
                value.region = Some(RectConfig {
                    x: 1,
                    y: 2,
                    width: 3,
                    height: 4,
                });
            }
        }
        "send_chat" | "reply" | "send_current_chat" => {
            value.message = Some("消息".to_string());
        }
        "send_friend_message" | "friend_reply" => {
            value.message = Some("消息".to_string());
            value.target = Some("好友".to_string());
        }
        "invite_user" | "invite_current_user" => {
            value.target = Some("好友".to_string());
        }
        _ => {}
    }
    workflow.steps = vec![value];
    CustomWorkflowService::new(config(workflow), defaults())
        .prepare(&invocation("3"))
        .unwrap()
        .operations
        .remove(0)
}

#[test]
fn execute_owns_confirmation_operations_and_success_message() {
    let mut value = workflow();
    value.confirm_before_run = true;
    value.confirm_message = "确认 {{username}}".to_string();
    value.success_message = "完成 {{arg1}}".to_string();
    let service = CustomWorkflowService::new(config(value), defaults());
    let mut port = RecordingPort::new(FreshMessageOutcome::Message("用户：@确认".to_string()));

    let completion = service.execute(&invocation("3"), &mut port).unwrap();

    assert_eq!(completion, WorkflowCompletion::Completed);
    assert_eq!(
        port.events,
        [
            "send:确认 用户",
            "wait:20000:2000",
            "operation:example:press_key",
            "operation:example:wait",
            "send:完成 3",
        ]
    );
}

#[test]
fn execute_timeout_cancels_without_running_any_operation() {
    let mut value = workflow();
    value.confirm_before_run = true;
    let service = CustomWorkflowService::new(config(value), defaults());
    let mut port = RecordingPort::new(FreshMessageOutcome::Timeout);

    let completion = service.execute(&invocation(""), &mut port).unwrap();

    assert_eq!(completion, WorkflowCompletion::Cancelled);
    assert_eq!(
        port.events,
        [
            "send:用户 请求执行 测试流程,@确认@跳过",
            "wait:20000:2000",
            "send:自定义流程确认超时,已取消",
        ]
    );
}

#[test]
fn execute_skip_and_stop_cancel_silently() {
    let mut value = workflow();
    value.confirm_before_run = true;
    let service = CustomWorkflowService::new(config(value), defaults());

    for outcome in [
        FreshMessageOutcome::Message("用户：@跳过".to_string()),
        FreshMessageOutcome::Stopped,
    ] {
        let mut port = RecordingPort::new(outcome);
        assert_eq!(
            service.execute(&invocation(""), &mut port).unwrap(),
            WorkflowCompletion::Cancelled
        );
        assert_eq!(port.events.len(), 2);
        assert!(port.events[0].starts_with("send:"));
        assert!(port.events[1].starts_with("wait:"));
    }
}

#[test]
fn execute_validates_the_complete_plan_before_any_port_call() {
    let mut value = workflow();
    value.confirm_before_run = true;
    value.steps.push(step("unsupported"));
    let service = CustomWorkflowService::new(config(value), defaults());
    let mut port = RecordingPort::new(FreshMessageOutcome::Timeout);

    assert!(service.execute(&invocation(""), &mut port).is_err());
    assert!(port.events.is_empty());
}

#[test]
fn parses_chat_commands_with_all_supported_argument_layouts() {
    let service = CustomWorkflowService::new(config(workflow()), defaults());
    for (text, expected) in [
        ("用户：@测试流程 123 abc", "123 abc"),
        ("用户：@测试流程123 abc", "123 abc"),
        ("用户：@测试流程：123 abc", "123 abc"),
    ] {
        let parsed = service.parse_chat(text, "blue").unwrap();
        assert_eq!(parsed.command.args, expected);
        assert_eq!(parsed.raw, "测试流程 123 abc");
    }
}

#[test]
fn chat_parser_respects_enablement_source_and_no_argument_boundary() {
    let mut value = workflow();
    value.allow_args = false;
    let service = CustomWorkflowService::new(config(value.clone()), defaults());
    assert!(service.parse_chat("用户：@测试流程", "blue").is_some());
    assert!(service.parse_chat("用户：@测试流程参数", "blue").is_none());
    assert!(service.parse_chat("[用户]：@测试流程", "pink").is_none());

    value.message_types.clear();
    let mut disabled = config(value);
    disabled.enabled = false;
    let service = CustomWorkflowService::new(disabled, defaults());
    assert!(service.parse_chat("用户：@测试流程", "blue").is_none());
}

#[test]
fn remote_prepare_uses_first_command_and_bypasses_chat_source_filter() {
    let mut value = workflow();
    value.commands = vec!["@入口".to_string(), "别名".to_string()];
    value.message_types = vec!["pink".to_string()];
    let service = CustomWorkflowService::new(config(value), defaults());

    let prepared = service.prepare_remote("example", "5").unwrap();

    assert_eq!(prepared.raw, "入口 5");
    assert_eq!(prepared.user_command, "@入口 5");
    assert_eq!(prepared.message_type, "控制台");
    assert_eq!(prepared.command.workflow, "example");
}

#[test]
fn list_keeps_enabled_definitions_even_when_global_switch_is_off() {
    let mut first = workflow();
    first.name.clear();
    let mut second = workflow();
    second.name = "disabled".to_string();
    second.enabled = false;
    let mut config = config(first);
    config.enabled = false;
    config.workflows.push(second);
    let service = CustomWorkflowService::new(config, defaults());

    assert_eq!(
        service.list(),
        vec![CustomWorkflowSummary {
            name: "测试流程".to_string(),
            commands: vec!["测试流程".to_string()],
            allow_args: true,
            confirm_before_run: false,
        }]
    );
}

#[test]
fn lock_identity_matches_previous_normalized_semantics() {
    let first = CustomWorkflowCommand {
        name: "ignored".to_string(),
        workflow: " Test-Flow ".to_string(),
        args: "A：B".to_string(),
    };
    let second = CustomWorkflowCommand {
        name: "different".to_string(),
        workflow: "test flow".to_string(),
        args: "a b".to_string(),
    };

    assert!(first.same_request("testflow", "ab", &second, "testflow", "ab"));
    assert_eq!(first.lock_key("testflow", "ab"), "custom_workflow:testflow:ab");
}

#[test]
fn context_renders_all_variables_and_preserves_unknown_values() {
    let context = WorkflowContext::new(&invocation("123 abc"));
    assert_eq!(
        context.render(
            "{{workflow}}|{{command}}|{{args}}|{{arg1}}|{{arg2}}|{{username}}|{{message_type}}|{{user_command}}|{{unknown}}"
        ),
        "example|测试流程|123 abc|123|abc|用户|blue|@测试流程 123 abc|{{unknown}}"
    );
}

#[test]
fn prepare_builds_confirmation_and_success_message_before_execution() {
    let mut value = workflow();
    value.confirm_before_run = true;
    value.confirm_message = "{{username}} 确认 {{arg1}}".to_string();
    value.confirm_message_types = vec!["PINK".to_string()];
    value.confirm_poll_ms = Some(1);
    value.success_message = "完成 {{args}}".to_string();
    let service = CustomWorkflowService::new(config(value), defaults());

    let plan = service.prepare(&invocation("3")).unwrap();

    assert_eq!(plan.success_message.as_deref(), Some("完成 3"));
    let confirmation = plan.confirmation.unwrap();
    assert_eq!(confirmation.message, "用户 确认 3");
    assert_eq!(confirmation.poll_ms, MIN_POLL_MS);
    assert!(confirmation.requires_multiple_conversations());
}

#[test]
fn prepare_rejects_any_later_invalid_step_before_returning_a_plan() {
    let mut value = workflow();
    value.steps = vec![step("key"), step("unsupported")];
    let service = CustomWorkflowService::new(config(value), defaults());

    let error = service.prepare(&invocation("")).unwrap_err();

    assert!(
        error
            .contains("unsupported custom workflow step type: unsupported")
    );
}

#[test]
fn prepare_rejects_missing_fields_for_each_effectful_step() {
    for (kind, expected) in [
        ("key", "step key is empty"),
        ("click", "missing point"),
        ("wait_template", "template is empty"),
        ("wait_text", "missing text"),
        ("paste", "missing text"),
        ("send_chat", "missing message"),
        ("send_current_chat", "missing message"),
        ("send_friend_message", "missing message"),
    ] {
        let mut value = workflow();
        let mut invalid = step(kind);
        invalid.key = None;
        value.steps = vec![invalid];
        let error = CustomWorkflowService::new(config(value), defaults())
            .prepare(&invocation(""))
            .unwrap_err();
        assert!(
            error.contains(expected),
            "kind={kind} error={error}"
        );
    }
}

#[test]
fn prepare_supports_every_current_step_alias() {
    for (left, right) in [
        ("sleep", "wait"),
        ("key", "press_key"),
        ("wait_stable", "wait_pixels_stable"),
        ("paste", "paste_text"),
        ("send_chat", "reply"),
        ("send_friend_message", "friend_reply"),
        ("invite_user", "invite_current_user"),
        ("return_primary", "ensure_primary"),
    ] {
        assert_eq!(prepared_operation(left), prepared_operation(right));
    }

    for kind in [
        "hold_key",
        "activate_game",
        "focus_game",
        "click",
        "click_template",
        "wait_template",
        "wait_template_absent",
        "click_text",
        "wait_text",
        "send_current_chat",
        "ensure_current_hall",
    ] {
        let _ = prepared_operation(kind);
    }
}

#[test]
fn prepare_resolves_template_defaults_and_explicit_post_wait() {
    let mut value = workflow();
    let mut template = step("click_template");
    template.template = Some("button".to_string());
    template.region = Some(RectConfig {
        x: 10,
        y: 20,
        width: 30,
        height: 40,
    });
    template.wait_ms = Some(75);
    value.steps = vec![template];
    let plan = CustomWorkflowService::new(config(value), defaults())
        .prepare(&invocation(""))
        .unwrap();

    assert_eq!(plan.operations.len(), 2);
    assert!(matches!(
        &plan.operations[0],
        WorkflowOperation::ClickTemplate {
            template,
            threshold,
            timeout_ms: 4_000,
            poll_ms: 50,
            ..
        } if template == "assets/button.png" && *threshold == single(0.9)
    ));
    assert_eq!(
        plan.operations[1],
        WorkflowOperation::Wait { duration_ms: 75 }
    );
}

#[test]
fn absent_template_stability_consumes_wait_but_disabled_stability_adds_it() {
    let make_plan = |stable_after_absent| {
        let mut value = workflow();
        let mut absent = step("wait_template_absent");
        absent.template = Some("button".to_string());
        absent.region = Some(RectConfig {
            x: 1,
            y: 2,
            width: 3,
            height: 4,
        });
        absent.wait_ms = Some(80);
        absent.stable_after_absent = Some(stable_after_absent);
        value.steps = vec![absent];
        CustomWorkflowService::new(config(value), defaults())
            .prepare(&invocation(""))
            .unwrap()
    };

    let stable = make_plan(true);
    assert_eq!(stable.operations.len(), 1);
    assert!(matches!(
        &stable.operations[0],
        WorkflowOperation::WaitTemplateAbsent {
            stability: Some(WorkflowPixelStability { timeout_ms: 80, .. }),
            ..
        }
    ));

    let not_stable = make_plan(false);
    assert_eq!(not_stable.operations.len(), 2);
    assert!(matches!(
        &not_stable.operations[0],
        WorkflowOperation::WaitTemplateAbsent {
            stability: None,
            ..
        }
    ));
    assert_eq!(
        not_stable.operations[1],
        WorkflowOperation::Wait { duration_ms: 80 }
    );
}

#[test]
fn hold_key_uses_selected_argument_and_never_adds_post_wait() {
    let mut value = workflow();
    let mut hold = step("hold_key");
    hold.key = Some("{{command}}".to_string());
    hold.hold_seconds_arg = Some(2);
    hold.wait_ms = Some(999);
    value.steps = vec![hold];
    let plan = CustomWorkflowService::new(config(value), defaults())
        .prepare(&invocation("unused 7"))
        .unwrap();

    assert_eq!(
        plan.operations,
        vec![WorkflowOperation::HoldKey {
            key: "测试流程".to_string(),
            duration_seconds: 7,
        }]
    );
}

#[test]
fn friend_and_invite_targets_default_to_triggering_user() {
    let mut value = workflow();
    let mut friend = step("send_friend_message");
    friend.message = Some("你好 {{username}}".to_string());
    let invite = step("invite_user");
    value.steps = vec![friend, invite];
    let plan = CustomWorkflowService::new(config(value), defaults())
        .prepare(&invocation(""))
        .unwrap();

    assert!(matches!(
        &plan.operations[0],
        WorkflowOperation::SendFriendMessage { target, message }
            if target == "用户" && message == "你好 用户"
    ));
    assert!(plan.operations.iter().any(|operation| matches!(
        operation,
        WorkflowOperation::InviteUser { target } if target == "用户"
    )));
}

#[test]
fn confirmation_parser_requires_a_complete_command_boundary() {
    assert_eq!(
        parse_confirmation("用户：@确认"),
        Some(WorkflowConfirmationDecision::Confirm)
    );
    assert_eq!(
        parse_confirmation("[用户]：@跳过！"),
        Some(WorkflowConfirmationDecision::Skip)
    );
    assert_eq!(parse_confirmation("用户：@确认其他"), None);
}

#[test]
fn friends_are_known_by_the_name_in_brackets() {
    let mut value = workflow();
    value.message_types = vec!["PINK".to_string()];
    let service = CustomWorkflowService::new(config(value), defaults());
    let found = service.parse_chat("[ 友 ]：@测试流程 7】", "pink").unwrap();
    assert_eq!(found.username, "友");
    assert_eq!(found.user_command, "@测试流程 7");
    assert_eq!(found.command.args, "7");
    assert_eq!(found.command.workflow, "example");
    assert!(service.parse_chat("[ ]：@测试流程", "pink").is_none());
    assert!(service.parse_chat("[友：@测试流程", "pink").is_none());
    assert!(service.parse_chat("友：@测试流程", "pink").is_none());
    assert!(service.parse_chat("用户：@测试流程", "blue").is_none());
    assert!(service.parse_chat("[友]：@测试流程", "yellow").is_none());
}

#[test]
fn calls_from_the_console_are_refused_with_a_reason() {
    let mut value = workflow();
    value.allow_args = false;
    let service = CustomWorkflowService::new(config(value.clone()), defaults());
    let reason = |name: &str, args: &str| service.prepare_remote(name, args).unwrap_err();
    assert_eq!(reason("  ", ""), "name 不能为空");
    assert_eq!(reason("other", ""), "自定义工作流不存在或未启用");
    assert_eq!(reason("EXAMPLE", "5"), "该自定义工作流不允许参数");
    assert_eq!(service.prepare_remote(" Example ", " ").unwrap().raw, "测试流程");
    let mut off = config(value);
    off.enabled = false;
    let service = CustomWorkflowService::new(off, defaults());
    assert_eq!(service.prepare_remote("example", "").unwrap_err(), "自定义工作流未启用");
}

#[test]
fn missing_workflows_and_steps_have_no_plan() {
    let mut value = workflow();
    value.steps.clear();
    let service = CustomWorkflowService::new(config(value), defaults());
    assert_eq!(
        service.prepare(&invocation("")).unwrap_err(),
        "custom workflow has no steps: example"
    );
    let mut other = invocation("");
    other.command.workflow = "nothing".to_string();
    assert_eq!(service.prepare(&other).unwrap_err(), "custom workflow not found: nothing");
}

#[test]
fn keys_are_held_within_limits() {
    let error = |args: &str, argument: Option<usize>, most: u64| {
        let mut value = workflow();
        let mut hold = step("hold_key");
        hold.hold_seconds_arg = argument;
        value.steps = vec![hold];
        let mut config = config(value);
        config.max_hold_key_seconds = most;
        CustomWorkflowService::new(config, defaults()).prepare(&invocation(args)).map(|plan| {
            match &plan.operations[0] {
                WorkflowOperation::HoldKey { duration_seconds, .. } => *duration_seconds,
                _ => panic!("a key is held"),
            }
        })
    };
    assert_eq!(error("", None, 10), Ok(1));
    assert_eq!(error("007", None, 10), Ok(7));
    assert_eq!(error("11", None, 10), Err("按住按键时长必须在 1 到 10 秒之间".to_string()));
    assert_eq!(error("0", None, 10), Err("按住按键时长必须在 1 到 10 秒之间".to_string()));
    assert_eq!(error("+5", None, 10), Err("按住按键时长必须是正整数秒，最大 10 秒".to_string()));
    assert_eq!(error("99999999999999999999", None, 10), Err("按住按键时长无效".to_string()));
    assert_eq!(error("5", Some(0), 10), Err("hold_seconds_arg 必须从 1 开始".to_string()));
    assert_eq!(
        error("5", None, 0),
        Err("custom_workflows.max_hold_key_seconds 必须大于 0".to_string())
    );
}

#[test]
fn names_that_are_not_closed_are_left_alone() {
    let context = WorkflowContext::new(&invocation("1 2"));
    assert_eq!(context.render("{{ arg2 }} {{arg3}} {{arg0}}"), "2 {{arg3}} {{arg0}}");
    assert_eq!(context.render("{{arg+1}}{{args"), "1{{args");
    assert_eq!(context.render("plain }} text"), "plain }} text");
}

#[test]
fn an_operation_that_fails_ends_the_workflow() {
    struct Failing(Vec<String>);
    impl CustomWorkflowExecutionPort for Failing {
        fn calls(&self) -> WorkflowCalls {
            unreachable!("stands in proofs only")
        }

        fn send_hall(&mut self, message: &str) -> Result<(), String> {
            self.0.push(message.to_string());
            Ok(())
        }

        fn wait_for_fresh_message(
            &mut self,
            _confirmation: &WorkflowConfirmation,
            _accepts_text: AcceptedText,
        ) -> Result<FreshMessageOutcome, String> {
            Ok(FreshMessageOutcome::Stopped)
        }

        fn execute_operation(
            &mut self,
            _workflow: &str,
            operation: WorkflowOperation,
        ) -> Result<(), String> {
            self.0.push(operation_label(&operation).to_string());
            match operation {
                WorkflowOperation::Wait { .. } => Err("stopped".to_string()),
                _ => Ok(()),
            }
        }
    }
    let mut value = workflow();
    value.success_message = "完成".to_string();
    value.steps = vec![step("key"), step("key")];
    let service = CustomWorkflowService::new(config(value), defaults());
    let mut port = Failing(Vec::new());
    assert_eq!(service.execute(&invocation(""), &mut port), Err("stopped".to_string()));
    assert_eq!(port.0, ["press_key", "wait"]);
}

#[test]
fn places_are_taken_over_from_the_configuration() {
    assert_eq!(WorkflowPoint::from(PointConfig::new(3, -4)), WorkflowPoint { x: 3, y: -4 });
    let rect = RectConfig { x: 1, y: 2, width: 3, height: 4 };
    assert_eq!(WorkflowRect::from(rect), WorkflowRect { x: 1, y: 2, width: 3, height: 4 });
}
