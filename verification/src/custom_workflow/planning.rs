//! What a call of a workflow asks to be done, before anything is done.
use vstd::prelude::*;
use crate::chat_text::is_command_boundary;
use crate::chat_text::leading_char;
use crate::chat_text::strip_exact_prefix;
use crate::chat_text::{after_exact_prefix, command_boundary, first_char};
use crate::config::checks::is_empty_text;
use crate::config::checks::PointConfig;
use crate::config::checks::Single;
use crate::config::live::copy_strings;
use crate::config::settings::blank;
use crate::config::settings::is_blank;
use crate::custom_workflow::calling::accepts_type;
use crate::custom_workflow::calling::find_workflow;
use crate::custom_workflow::calling::gap_chars;
use crate::custom_workflow::calling::name_end_chars;
use crate::custom_workflow::calling::{accepted_type, gaps, name_ends, named_workflow};
use crate::custom_workflow::context::CustomWorkflowInvocation;
use crate::custom_workflow::context::WorkflowContext;
use crate::custom_workflow::context::{rendered, InvocationView};
use crate::custom_workflow::definition::find_template;
use crate::custom_workflow::definition::template_named;
use crate::custom_workflow::definition::CustomWorkflowConfig;
use crate::custom_workflow::definition::CustomWorkflowDefinition;
use crate::custom_workflow::definition::CustomWorkflowStep;
use crate::custom_workflow::operation::WorkflowOperation;
use crate::custom_workflow::operation::WorkflowPixelStability;
use crate::custom_workflow::operation::WorkflowPoint;
use crate::custom_workflow::operation::WorkflowRect;
use crate::custom_workflow::operation::WorkflowResidency;
use crate::custom_workflow::operation::{operation_views, OperationView};
use crate::scan::find_any;
use crate::scan::is_all_digits;
use crate::scan::parse_number;
use crate::scan::slice;
use crate::scan::trim_leading;
use crate::scan::{
    all_digits, first_of, lemma_digits_not_negative, number_up_to, without_leading, words,
};
use crate::text::cat2;
use crate::text::cat3;
use crate::text::cat4;
use crate::text::decimal;
use crate::text::format_u64;
use crate::text::from_chars;
use crate::text::owned;
use crate::text::str_equal;
use crate::text::string_views;
use crate::text::to_chars;
use crate::text::trim;
use crate::text::trimmed;

verus! {

/// The screen is not looked at more often than this.
pub const MIN_POLL_MS: u64 = 50;

/// What holds for a step that does not say otherwise.
#[derive(Clone, Copy, Debug, PartialEq, Eq, Structural)]
pub struct WorkflowDefaults {
    pub default_timeout_ms: u64,
    pub default_poll_ms: u64,
    pub default_step_wait_ms: u64,
    pub decision_timeout_ms: u64,
    pub decision_poll_ms: u64,
    pub after_activate_ms: u64,
    pub clipboard_hold_ms: u64,
    pub stability_mean_threshold: Single,
    pub stability_changed_ratio_threshold: Single,
}

// ---------------------------------------------------------------------------
// Confirmation
// ---------------------------------------------------------------------------
/// A question to be answered before a workflow runs.
#[derive(Clone, Debug, PartialEq, Eq)]
pub struct WorkflowConfirmation {
    pub message: String,
    pub message_types: Vec<String>,
    pub timeout_ms: u64,
    pub poll_ms: u64,
}

/// A question to be answered before a workflow runs, as plain values.
#[verifier::ext_equal]
pub struct ConfirmationView {
    pub message: Seq<char>,
    pub message_types: Seq<Seq<char>>,
    pub timeout_ms: u64,
    pub poll_ms: u64,
}

impl View for WorkflowConfirmation {
    type V = ConfirmationView;

    open spec fn view(&self) -> ConfirmationView {
        ConfirmationView {
            message: self.message@,
            message_types: string_views(self.message_types@),
            timeout_ms: self.timeout_ms,
            poll_ms: self.poll_ms,
        }
    }
}

impl WorkflowConfirmation {
    /// Whether messages of a type may answer.
    pub fn accepts_message_type(&self, message_type: &str) -> (r: bool)
        ensures
            r == accepted_type(self@.message_types, message_type@),
    {
        accepts_type(&self.message_types, message_type)
    }

    /// Whether friends may answer in private, so that more than one conversation
    /// has to be watched.
    pub fn requires_multiple_conversations(&self) -> (r: bool)
        ensures
            r == accepted_type(self@.message_types, "pink"@),
    {
        self.accepts_message_type("pink")
    }
}

/// How a question was answered.
#[derive(Clone, Copy, Debug, PartialEq, Eq, Structural)]
pub enum WorkflowConfirmationDecision {
    Confirm,
    Skip,
}

/// What is said in a message, behind the name and what may follow it.
pub open spec fn said(text: Seq<char>) -> Seq<char> {
    let raw = trimmed(text);
    match first_of(raw, name_ends()) {
        Some(at) => without_leading(raw.skip(at + 1), gaps()),
        None => without_leading(raw, gaps()),
    }
}

/// Whether something said is a word, with nothing behind it that goes on.
pub open spec fn says(spoken: Seq<char>, word: Seq<char>) -> bool {
    match after_exact_prefix(spoken, word) {
        Some(rest) => command_boundary(first_char(rest)),
        None => false,
    }
}

/// How a message answers a question.
pub open spec fn decision_in(text: Seq<char>) -> Option<WorkflowConfirmationDecision> {
    if says(said(text), "@确认"@) {
        Some(WorkflowConfirmationDecision::Confirm)
    } else if says(said(text), "@跳过"@) {
        Some(WorkflowConfirmationDecision::Skip)
    } else {
        None
    }
}

/// Whether something said is a word, with nothing behind it that goes on.
fn is_said(spoken: &str, word: &str) -> (r: bool)
    ensures
        r == says(spoken@, word@),
{
    match strip_exact_prefix(spoken, word) {
        Some(rest) => is_command_boundary(leading_char(rest.as_str())),
        None => false,
    }
}

/// How a message answers a question.
pub fn parse_confirmation(text: &str) -> (r: Option<WorkflowConfirmationDecision>)
    ensures
        r == decision_in(text@),
{
    let raw = to_chars(trim(text).as_str());
    let length: usize = raw.len();
    let behind = match find_any(&raw, &name_end_chars()) {
        Some(at) => {
            let rest = slice(&raw, at + 1, length);
            assert(rest@ =~= raw@.skip(at + 1));
            rest
        },
        None => raw,
    };
    let spoken = from_chars(trim_leading(&behind, &gap_chars()).as_slice());
    if is_said(spoken.as_str(), "@确认") {
        Some(WorkflowConfirmationDecision::Confirm)
    } else if is_said(spoken.as_str(), "@跳过") {
        Some(WorkflowConfirmationDecision::Skip)
    } else {
        None
    }
}

/// Whether a message answers a question.
pub fn is_confirmation_message(text: &str) -> (r: bool)
    ensures
        r == (decision_in(text@) is Some),
{
    parse_confirmation(text).is_some()
}

/// Which messages count as an answer.
#[derive(Clone, Copy, Debug, PartialEq, Eq, Structural)]
pub enum AcceptedText {
    /// Those that confirm or decline.
    Confirmation,
}

impl AcceptedText {
    /// Whether a message counts.
    pub open spec fn counts(self, text: Seq<char>) -> bool {
        match self {
            AcceptedText::Confirmation => decision_in(text) is Some,
        }
    }

    /// Whether a message counts.
    pub fn accepts(self, text: &str) -> (r: bool)
        ensures
            r == self.counts(text@),
    {
        match self {
            AcceptedText::Confirmation => is_confirmation_message(text),
        }
    }
}

// ---------------------------------------------------------------------------
// The fields of a step
// ---------------------------------------------------------------------------
/// A text without whitespace around it, empty where there is none.
pub open spec fn text_or_empty(text: Option<String>) -> Seq<char> {
    match text {
        Some(text) => trimmed(text@),
        None => Seq::empty(),
    }
}

/// A text without whitespace around it, empty where there is none.
fn trimmed_or_empty(text: &Option<String>) -> (r: String)
    ensures
        r@ == text_or_empty(*text),
{
    match text {
        Some(text) => trim(text.as_str()),
        None => {
            proof {
                reveal_strlit("");
                assert(""@ =~= Seq::empty());
            }
            owned("")
        },
    }
}

/// A value, or else another.
pub open spec fn given<T>(value: Option<T>, otherwise: T) -> T {
    match value {
        Some(value) => value,
        None => otherwise,
    }
}

/// A number, or else another.
fn given_number(value: Option<u64>, otherwise: u64) -> (r: u64)
    ensures
        r == given(value, otherwise),
{
    match value {
        Some(value) => value,
        None => otherwise,
    }
}

/// How often a step looks at the screen.
pub open spec fn poll_of(poll_ms: Option<u64>, otherwise: u64) -> u64 {
    if given(poll_ms, otherwise) < MIN_POLL_MS {
        MIN_POLL_MS
    } else {
        given(poll_ms, otherwise)
    }
}

/// How often a step looks at the screen.
fn resolved_poll_ms(poll_ms: Option<u64>, otherwise: u64) -> (r: u64)
    ensures
        r == poll_of(poll_ms, otherwise),
{
    let poll: u64 = given_number(poll_ms, otherwise);
    if poll < MIN_POLL_MS {
        MIN_POLL_MS
    } else {
        poll
    }
}

/// The text of a step, or else its message.
pub open spec fn step_text(step: CustomWorkflowStep, call: InvocationView) -> Seq<char> {
    rendered(
        if text_or_empty(step.text).len() == 0 {
            text_or_empty(step.message)
        } else {
            text_or_empty(step.text)
        },
        call,
    )
}

/// The message of a step, or else its text.
pub open spec fn step_message(step: CustomWorkflowStep, call: InvocationView) -> Seq<char> {
    rendered(
        if text_or_empty(step.message).len() == 0 {
            text_or_empty(step.text)
        } else {
            text_or_empty(step.message)
        },
        call,
    )
}

/// Whom a step is for: who is named, or else who called the workflow.
pub open spec fn step_target(step: CustomWorkflowStep, call: InvocationView) -> Seq<char> {
    if text_or_empty(step.target).len() == 0 {
        trimmed(call.username)
    } else {
        rendered(text_or_empty(step.target), call)
    }
}

fn custom_step_text(step: &CustomWorkflowStep, context: &WorkflowContext) -> (r: String)
    requires
        context.wf(),
    ensures
        r@ == step_text(*step, context@),
{
    let text = trimmed_or_empty(&step.text);
    if is_empty_text(text.as_str()) {
        context.render(trimmed_or_empty(&step.message).as_str())
    } else {
        context.render(text.as_str())
    }
}

fn custom_step_message(step: &CustomWorkflowStep, context: &WorkflowContext) -> (r: String)
    requires
        context.wf(),
    ensures
        r@ == step_message(*step, context@),
{
    let message = trimmed_or_empty(&step.message);
    if is_empty_text(message.as_str()) {
        context.render(trimmed_or_empty(&step.text).as_str())
    } else {
        context.render(message.as_str())
    }
}

fn custom_step_target(step: &CustomWorkflowStep, context: &WorkflowContext) -> (r: String)
    requires
        context.wf(),
    ensures
        r@ == step_target(*step, context@),
{
    let target = trimmed_or_empty(&step.target);
    if is_empty_text(target.as_str()) {
        trim(context.username.as_str())
    } else {
        context.render(target.as_str())
    }
}

/// How long a key is held: as long as an argument says, or a second.
pub open spec fn hold_seconds(
    step: CustomWorkflowStep,
    call: InvocationView,
    max_seconds: u64,
) -> Result<u64, Seq<char>> {
    let argument = given(step.hold_seconds_arg, 1usize);
    let argv = words(call.command.args);
    if max_seconds == 0 {
        Err("custom_workflows.max_hold_key_seconds 必须大于 0"@)
    } else if argument == 0 {
        Err("hold_seconds_arg 必须从 1 开始"@)
    } else if argument > argv.len() {
        Ok(1)
    } else if !all_digits(argv[argument - 1]) {
        Err("按住按键时长必须是正整数秒，最大 "@ + decimal(max_seconds as nat) + " 秒"@)
    } else {
        match number_up_to(argv[argument - 1], u64::MAX as int) {
            None => Err("按住按键时长无效"@),
            Some(seconds) => if seconds == 0 || seconds > max_seconds {
                Err("按住按键时长必须在 1 到 "@ + decimal(max_seconds as nat) + " 秒之间"@)
            } else {
                Ok(seconds as u64)
            },
        }
    }
}

/// A number, or why there is none.
pub open spec fn number_outcome(r: Result<u64, String>) -> Result<u64, Seq<char>> {
    match r {
        Ok(number) => Ok(number),
        Err(reason) => Err(reason@),
    }
}

/// How long a key is held.
pub fn custom_hold_key_seconds(
    step: &CustomWorkflowStep,
    context: &WorkflowContext,
    max_seconds: u64,
) -> (r: Result<u64, String>)
    requires
        context.wf(),
    ensures
        number_outcome(r) == hold_seconds(*step, context@, max_seconds),
{
    if max_seconds == 0 {
        return Err(owned("custom_workflows.max_hold_key_seconds 必须大于 0"));
    }
    let argument: usize = match step.hold_seconds_arg {
        Some(argument) => argument,
        None => 1,
    };
    if argument == 0 {
        return Err(owned("hold_seconds_arg 必须从 1 开始"));
    }
    if argument > context.argv.len() {
        return Ok(1);
    }
    assert(string_views(context.argv@)[argument - 1] == context.argv@[argument - 1]@);
    let raw = to_chars(context.argv[argument - 1].as_str());
    if !is_all_digits(&raw) {
        return Err(
            cat3(
                "按住按键时长必须是正整数秒，最大 ",
                format_u64(max_seconds).as_str(),
                " 秒",
            ),
        );
    }
    match parse_number(&raw, u64::MAX) {
        None => Err(owned("按住按键时长无效")),
        Some(seconds) => if seconds == 0 || seconds > max_seconds {
            Err(cat3("按住按键时长必须在 1 到 ", format_u64(max_seconds).as_str(), " 秒之间"))
        } else {
            Ok(seconds)
        },
    }
}

/// The path of a step's template.
pub open spec fn template_of(
    config: CustomWorkflowConfig,
    step: CustomWorkflowStep,
    call: InvocationView,
) -> Option<Seq<char>> {
    let name = trimmed(rendered(text_or_empty(step.template), call));
    if name.len() == 0 {
        None
    } else {
        Some(given(template_named(config.templates@, name), name))
    }
}

/// The path of a step's template.
fn resolve_template(
    config: &CustomWorkflowConfig,
    step: &CustomWorkflowStep,
    context: &WorkflowContext,
) -> (r: Option<String>)
    requires
        context.wf(),
    ensures
        match r {
            Some(path) => template_of(*config, *step, context@) == Some(path@),
            None => template_of(*config, *step, context@) is None,
        },
{
    let name = trim(context.render(trimmed_or_empty(&step.template).as_str()).as_str());
    if is_empty_text(name.as_str()) {
        return None;
    }
    match find_template(&config.templates, name.as_str()) {
        Some(path) => Some(path),
        None => Some(name),
    }
}

/// A part of the screen, as a step names it.
pub open spec fn region_of(step: CustomWorkflowStep) -> Option<WorkflowRect> {
    match step.region {
        Some(rect) => Some(
            WorkflowRect { x: rect.x, y: rect.y, width: rect.width, height: rect.height },
        ),
        None => None,
    }
}

/// How far from what it found a step clicks.
pub open spec fn offset_of(step: CustomWorkflowStep) -> WorkflowPoint {
    match step.click_offset {
        Some(point) => WorkflowPoint { x: point.x, y: point.y },
        None => WorkflowPoint { x: 0, y: 0 },
    }
}

fn step_region(step: &CustomWorkflowStep) -> (r: Option<WorkflowRect>)
    ensures
        r == region_of(*step),
{
    match step.region {
        Some(rect) => Some(WorkflowRect::from(rect)),
        None => None,
    }
}

fn step_offset(step: &CustomWorkflowStep) -> (r: WorkflowPoint)
    ensures
        r == offset_of(*step),
{
    match step.click_offset {
        Some(point) => WorkflowPoint::from(point),
        None => WorkflowPoint::from(PointConfig::new(0, 0)),
    }
}

/// When the screen counts as unmoved.
pub open spec fn stability_of(defaults: WorkflowDefaults, timeout_ms: u64) -> WorkflowPixelStability {
    WorkflowPixelStability {
        timeout_ms,
        mean_threshold: defaults.stability_mean_threshold,
        changed_ratio_threshold: defaults.stability_changed_ratio_threshold,
    }
}

fn pixel_stability(defaults: &WorkflowDefaults, timeout_ms: u64) -> (r: WorkflowPixelStability)
    ensures
        r == stability_of(*defaults, timeout_ms),
{
    WorkflowPixelStability {
        timeout_ms,
        mean_threshold: defaults.stability_mean_threshold,
        changed_ratio_threshold: defaults.stability_changed_ratio_threshold,
    }
}

// ---------------------------------------------------------------------------
// The operation of a step
// ---------------------------------------------------------------------------
/// An operation, or why there is none.
pub open spec fn step_outcome(r: Result<WorkflowOperation, String>) -> Result<
    OperationView,
    Seq<char>,
> {
    match r {
        Ok(operation) => Ok(operation@),
        Err(reason) => Err(reason@),
    }
}

/// The key of a step.
pub open spec fn key_of(step: CustomWorkflowStep, call: InvocationView) -> Seq<char> {
    rendered(text_or_empty(step.key), call)
}

/// The operation of a step that looks for a template.
pub open spec fn template_operation(
    config: CustomWorkflowConfig,
    defaults: WorkflowDefaults,
    step: CustomWorkflowStep,
    call: InvocationView,
    click: bool,
) -> Result<OperationView, Seq<char>> {
    match (template_of(config, step, call), region_of(step)) {
        (None, _) => Err("custom workflow template is empty"@),
        (Some(_), None) => Err("custom workflow template step missing region"@),
        (Some(template), Some(region)) => if click {
            Ok(
                OperationView::ClickTemplate {
                    template,
                    region,
                    threshold: given(step.threshold, config.default_threshold),
                    timeout_ms: given(step.timeout_ms, defaults.default_timeout_ms),
                    poll_ms: poll_of(step.poll_ms, defaults.default_poll_ms),
                    offset: offset_of(step),
                },
            )
        } else {
            Ok(
                OperationView::WaitTemplate {
                    template,
                    region,
                    threshold: given(step.threshold, config.default_threshold),
                    timeout_ms: given(step.timeout_ms, defaults.default_timeout_ms),
                    poll_ms: poll_of(step.poll_ms, defaults.default_poll_ms),
                },
            )
        },
    }
}

/// The operation of a step that waits until a template is gone.
pub open spec fn absent_operation(
    config: CustomWorkflowConfig,
    defaults: WorkflowDefaults,
    step: CustomWorkflowStep,
    call: InvocationView,
) -> Result<OperationView, Seq<char>> {
    let poll_ms = poll_of(step.poll_ms, defaults.default_poll_ms);
    let wait_ms = given(step.wait_ms, defaults.default_step_wait_ms);
    match (template_of(config, step, call), region_of(step)) {
        (None, _) => Err("custom workflow template is empty"@),
        (Some(_), None) => Err("custom workflow template step missing region"@),
        (Some(template), Some(region)) => Ok(
            OperationView::WaitTemplateAbsent {
                template,
                region,
                threshold: given(step.threshold, config.default_threshold),
                timeout_ms: given(step.timeout_ms, defaults.default_timeout_ms),
                poll_ms,
                stability: if given(
                    step.stable_after_absent,
                    config.wait_template_absent_stable_default,
                ) {
                    Some(
                        stability_of(
                            defaults,
                            if wait_ms < poll_ms {
                                poll_ms
                            } else {
                                wait_ms
                            },
                        ),
                    )
                } else {
                    None
                },
            },
        ),
    }
}

/// The operation of a step that looks for a text.
pub open spec fn text_operation(
    defaults: WorkflowDefaults,
    step: CustomWorkflowStep,
    call: InvocationView,
    click: bool,
) -> Result<OperationView, Seq<char>> {
    let expected = step_text(step, call);
    if expected.len() == 0 {
        Err("custom workflow text step missing text"@)
    } else {
        match region_of(step) {
            None => Err("custom workflow text step missing region"@),
            Some(region) => if click {
                Ok(
                    OperationView::ClickText {
                        expected,
                        region,
                        timeout_ms: given(step.timeout_ms, defaults.default_timeout_ms),
                        poll_ms: poll_of(step.poll_ms, defaults.default_poll_ms),
                        offset: offset_of(step),
                    },
                )
            } else {
                Ok(
                    OperationView::WaitText {
                        expected,
                        region,
                        timeout_ms: given(step.timeout_ms, defaults.default_timeout_ms),
                        poll_ms: poll_of(step.poll_ms, defaults.default_poll_ms),
                    },
                )
            },
        }
    }
}

/// The operation of a step that says something to somebody.
pub open spec fn friend_operation(step: CustomWorkflowStep, call: InvocationView) -> Result<
    OperationView,
    Seq<char>,
> {
    if step_message(step, call).len() == 0 {
        Err("custom workflow send_friend_message step missing message"@)
    } else if step_target(step, call).len() == 0 {
        Err("custom workflow send_friend_message step missing target"@)
    } else {
        Ok(
            OperationView::SendFriendMessage {
                target: step_target(step, call),
                message: step_message(step, call),
            },
        )
    }
}

/// The operation of a step.
pub open spec fn step_operation(
    config: CustomWorkflowConfig,
    defaults: WorkflowDefaults,
    step: CustomWorkflowStep,
    call: InvocationView,
) -> Result<OperationView, Seq<char>> {
    let kind = trimmed(step.step_type@);
    if kind == "sleep"@ || kind == "wait"@ {
        Ok(
            OperationView::Wait {
                duration_ms: given(
                    step.wait_ms,
                    given(step.timeout_ms, defaults.default_step_wait_ms),
                ),
            },
        )
    } else if kind == "key"@ || kind == "press_key"@ {
        if blank(key_of(step, call)) {
            Err("custom workflow step key is empty"@)
        } else {
            Ok(OperationView::PressKey { key: key_of(step, call) })
        }
    } else if kind == "hold_key"@ {
        if blank(key_of(step, call)) {
            Err("自定义流程按住按键缺少 key"@)
        } else {
            match hold_seconds(step, call, config.max_hold_key_seconds) {
                Ok(duration_seconds) => Ok(
                    OperationView::HoldKey { key: key_of(step, call), duration_seconds },
                ),
                Err(reason) => Err(reason),
            }
        }
    } else if kind == "activate_game"@ {
        Ok(OperationView::ActivateGame { after_activate_ms: defaults.after_activate_ms })
    } else if kind == "focus_game"@ {
        Ok(OperationView::FocusGame { after_activate_ms: defaults.after_activate_ms })
    } else if kind == "click"@ {
        match step.point {
            Some(point) => Ok(
                OperationView::ClickPoint { point: WorkflowPoint { x: point.x, y: point.y } },
            ),
            None => Err("custom workflow click step missing point"@),
        }
    } else if kind == "click_template"@ {
        template_operation(config, defaults, step, call, true)
    } else if kind == "wait_template"@ {
        template_operation(config, defaults, step, call, false)
    } else if kind == "wait_template_absent"@ {
        absent_operation(config, defaults, step, call)
    } else if kind == "wait_stable"@ || kind == "wait_pixels_stable"@ {
        match region_of(step) {
            Some(region) => Ok(
                OperationView::WaitPixelsStable {
                    region,
                    poll_ms: poll_of(step.poll_ms, defaults.default_poll_ms),
                    stability: stability_of(
                        defaults,
                        given(step.timeout_ms, given(step.wait_ms, defaults.default_timeout_ms)),
                    ),
                },
            ),
            None => Err("custom workflow wait_stable step missing region"@),
        }
    } else if kind == "click_text"@ {
        text_operation(defaults, step, call, true)
    } else if kind == "wait_text"@ {
        text_operation(defaults, step, call, false)
    } else if kind == "paste"@ || kind == "paste_text"@ {
        if step_text(step, call).len() == 0 {
            Err("custom workflow paste step missing text"@)
        } else {
            Ok(
                OperationView::PasteText {
                    text: step_text(step, call),
                    clipboard_hold_ms: defaults.clipboard_hold_ms,
                },
            )
        }
    } else if kind == "send_chat"@ || kind == "reply"@ {
        if step_message(step, call).len() == 0 {
            Err("custom workflow send_chat step missing message"@)
        } else {
            Ok(OperationView::SendHall { message: step_message(step, call) })
        }
    } else if kind == "send_current_chat"@ {
        if step_message(step, call).len() == 0 {
            Err("custom workflow send_current_chat step missing message"@)
        } else {
            Ok(OperationView::SendCurrentChat { message: step_message(step, call) })
        }
    } else if kind == "send_friend_message"@ || kind == "friend_reply"@ {
        friend_operation(step, call)
    } else if kind == "invite_user"@ || kind == "invite_current_user"@ {
        if step_target(step, call).len() == 0 {
            Err("custom workflow invite step missing target"@)
        } else {
            Ok(OperationView::InviteUser { target: step_target(step, call) })
        }
    } else if kind == "return_primary"@ || kind == "ensure_primary"@ {
        Ok(OperationView::EnsureResidency { target: WorkflowResidency::Primary })
    } else if kind == "ensure_current_hall"@ {
        Ok(OperationView::EnsureResidency { target: WorkflowResidency::SecondaryCurrentHall })
    } else {
        Err("unsupported custom workflow step type: "@ + kind)
    }
}

/// Whether a step has its waiting in it, so that none follows it.
pub open spec fn waits_itself(step: CustomWorkflowStep, stable_absent_default: bool) -> bool {
    let kind = trimmed(step.step_type@);
    ||| kind == "sleep"@
    ||| kind == "wait"@
    ||| kind == "hold_key"@
    ||| kind == "wait_template_absent"@ && given(step.stable_after_absent, stable_absent_default)
    ||| kind == "wait_stable"@
    ||| kind == "wait_pixels_stable"@
}

/// What follows the operation of a step: a wait, unless it waits itself or not
/// at all.
pub open spec fn pause_after(
    config: CustomWorkflowConfig,
    defaults: WorkflowDefaults,
    step: CustomWorkflowStep,
) -> Seq<OperationView> {
    let wait_ms = given(step.wait_ms, defaults.default_step_wait_ms);
    if waits_itself(step, config.wait_template_absent_stable_default) || wait_ms == 0 {
        Seq::empty()
    } else {
        seq![OperationView::Wait { duration_ms: wait_ms }]
    }
}

/// Whether a step has its waiting in it.
pub fn step_consumes_wait(step: &CustomWorkflowStep, stable_absent_default: bool) -> (r: bool)
    ensures
        r == waits_itself(*step, stable_absent_default),
{
    let kind = trim(step.step_type.as_str());
    let kind = kind.as_str();
    if str_equal(kind, "sleep") || str_equal(kind, "wait") || str_equal(kind, "hold_key")
        || str_equal(kind, "wait_stable") || str_equal(kind, "wait_pixels_stable") {
        return true;
    }
    str_equal(kind, "wait_template_absent") && match step.stable_after_absent {
        Some(stable) => stable,
        None => stable_absent_default,
    }
}

/// The threshold of a step.
fn step_threshold(config: &CustomWorkflowConfig, step: &CustomWorkflowStep) -> (r: Single)
    ensures
        r == given(step.threshold, config.default_threshold),
{
    match step.threshold {
        Some(threshold) => threshold,
        None => config.default_threshold,
    }
}

/// The operation of a step that looks for a template.
fn prepare_template_step(
    config: &CustomWorkflowConfig,
    defaults: &WorkflowDefaults,
    step: &CustomWorkflowStep,
    context: &WorkflowContext,
    click: bool,
) -> (r: Result<WorkflowOperation, String>)
    requires
        context.wf(),
    ensures
        step_outcome(r) == template_operation(*config, *defaults, *step, context@, click),
{
    let template = match resolve_template(config, step, context) {
        Some(template) => template,
        None => {
            return Err(owned("custom workflow template is empty"));
        },
    };
    let region = match step_region(step) {
        Some(region) => region,
        None => {
            return Err(owned("custom workflow template step missing region"));
        },
    };
    let threshold = step_threshold(config, step);
    let timeout_ms: u64 = given_number(step.timeout_ms, defaults.default_timeout_ms);
    let poll_ms: u64 = resolved_poll_ms(step.poll_ms, defaults.default_poll_ms);
    if click {
        Ok(
            WorkflowOperation::ClickTemplate {
                template,
                region,
                threshold,
                timeout_ms,
                poll_ms,
                offset: step_offset(step),
            },
        )
    } else {
        Ok(WorkflowOperation::WaitTemplate { template, region, threshold, timeout_ms, poll_ms })
    }
}

/// The operation of a step that waits until a template is gone.
fn prepare_template_absent_step(
    config: &CustomWorkflowConfig,
    defaults: &WorkflowDefaults,
    step: &CustomWorkflowStep,
    context: &WorkflowContext,
) -> (r: Result<WorkflowOperation, String>)
    requires
        context.wf(),
    ensures
        step_outcome(r) == absent_operation(*config, *defaults, *step, context@),
{
    let template = match resolve_template(config, step, context) {
        Some(template) => template,
        None => {
            return Err(owned("custom workflow template is empty"));
        },
    };
    let region = match step_region(step) {
        Some(region) => region,
        None => {
            return Err(owned("custom workflow template step missing region"));
        },
    };
    let poll_ms: u64 = resolved_poll_ms(step.poll_ms, defaults.default_poll_ms);
    let stable = match step.stable_after_absent {
        Some(stable) => stable,
        None => config.wait_template_absent_stable_default,
    };
    let stability = if stable {
        let wait_ms: u64 = given_number(step.wait_ms, defaults.default_step_wait_ms);
        Some(
            pixel_stability(
                defaults,
                if wait_ms < poll_ms {
                    poll_ms
                } else {
                    wait_ms
                },
            ),
        )
    } else {
        None
    };
    Ok(
        WorkflowOperation::WaitTemplateAbsent {
            template,
            region,
            threshold: step_threshold(config, step),
            timeout_ms: given_number(step.timeout_ms, defaults.default_timeout_ms),
            poll_ms,
            stability,
        },
    )
}

/// The operation of a step that looks for a text.
fn prepare_text_step(
    defaults: &WorkflowDefaults,
    step: &CustomWorkflowStep,
    context: &WorkflowContext,
    click: bool,
) -> (r: Result<WorkflowOperation, String>)
    requires
        context.wf(),
    ensures
        step_outcome(r) == text_operation(*defaults, *step, context@, click),
{
    let expected = custom_step_text(step, context);
    if is_empty_text(expected.as_str()) {
        return Err(owned("custom workflow text step missing text"));
    }
    let region = match step_region(step) {
        Some(region) => region,
        None => {
            return Err(owned("custom workflow text step missing region"));
        },
    };
    let timeout_ms: u64 = given_number(step.timeout_ms, defaults.default_timeout_ms);
    let poll_ms: u64 = resolved_poll_ms(step.poll_ms, defaults.default_poll_ms);
    if click {
        Ok(
            WorkflowOperation::ClickText {
                expected,
                region,
                timeout_ms,
                poll_ms,
                offset: step_offset(step),
            },
        )
    } else {
        Ok(WorkflowOperation::WaitText { expected, region, timeout_ms, poll_ms })
    }
}

/// The operation of a step.
pub fn prepare_step(
    config: &CustomWorkflowConfig,
    defaults: &WorkflowDefaults,
    step: &CustomWorkflowStep,
    context: &WorkflowContext,
) -> (r: Result<WorkflowOperation, String>)
    requires
        context.wf(),
    ensures
        step_outcome(r) == step_operation(*config, *defaults, *step, context@),
{
    let trimmed_kind = trim(step.step_type.as_str());
    let kind = trimmed_kind.as_str();
    if str_equal(kind, "sleep") || str_equal(kind, "wait") {
        return Ok(
            WorkflowOperation::Wait {
                duration_ms: given_number(
                    step.wait_ms,
                    given_number(step.timeout_ms, defaults.default_step_wait_ms),
                ),
            },
        );
    }
    if str_equal(kind, "key") || str_equal(kind, "press_key") {
        let key = context.render(trimmed_or_empty(&step.key).as_str());
        if is_blank(key.as_str()) {
            return Err(owned("custom workflow step key is empty"));
        }
        return Ok(WorkflowOperation::PressKey { key });
    }
    if str_equal(kind, "hold_key") {
        let key = context.render(trimmed_or_empty(&step.key).as_str());
        if is_blank(key.as_str()) {
            return Err(owned("自定义流程按住按键缺少 key"));
        }
        return match custom_hold_key_seconds(step, context, config.max_hold_key_seconds) {
            Ok(duration_seconds) => Ok(WorkflowOperation::HoldKey { key, duration_seconds }),
            Err(reason) => Err(reason),
        };
    }
    if str_equal(kind, "activate_game") {
        return Ok(
            WorkflowOperation::ActivateGame { after_activate_ms: defaults.after_activate_ms },
        );
    }
    if str_equal(kind, "focus_game") {
        return Ok(WorkflowOperation::FocusGame { after_activate_ms: defaults.after_activate_ms });
    }
    if str_equal(kind, "click") {
        return match step.point {
            Some(point) => Ok(
                WorkflowOperation::ClickPoint { point: WorkflowPoint::from(point) },
            ),
            None => Err(owned("custom workflow click step missing point")),
        };
    }
    if str_equal(kind, "click_template") {
        return prepare_template_step(config, defaults, step, context, true);
    }
    if str_equal(kind, "wait_template") {
        return prepare_template_step(config, defaults, step, context, false);
    }
    if str_equal(kind, "wait_template_absent") {
        return prepare_template_absent_step(config, defaults, step, context);
    }
    if str_equal(kind, "wait_stable") || str_equal(kind, "wait_pixels_stable") {
        return match step_region(step) {
            Some(region) => {
                let timeout_ms: u64 = given_number(
                    step.timeout_ms,
                    given_number(step.wait_ms, defaults.default_timeout_ms),
                );
                Ok(
                    WorkflowOperation::WaitPixelsStable {
                        region,
                        poll_ms: resolved_poll_ms(step.poll_ms, defaults.default_poll_ms),
                        stability: pixel_stability(defaults, timeout_ms),
                    },
                )
            },
            None => Err(owned("custom workflow wait_stable step missing region")),
        };
    }
    if str_equal(kind, "click_text") {
        return prepare_text_step(defaults, step, context, true);
    }
    if str_equal(kind, "wait_text") {
        return prepare_text_step(defaults, step, context, false);
    }
    prepare_message_step(defaults, step, context, kind)
}

/// The operation of a step that says or pastes something, invites somebody or
/// goes somewhere. `kind` is the kind of the step, and none of the others.
fn prepare_message_step(
    defaults: &WorkflowDefaults,
    step: &CustomWorkflowStep,
    context: &WorkflowContext,
    kind: &str,
) -> (r: Result<WorkflowOperation, String>)
    requires
        context.wf(),
        kind@ == trimmed(step.step_type@),
        kind@ != "sleep"@,
        kind@ != "wait"@,
        kind@ != "key"@,
        kind@ != "press_key"@,
        kind@ != "hold_key"@,
        kind@ != "activate_game"@,
        kind@ != "focus_game"@,
        kind@ != "click"@,
        kind@ != "click_template"@,
        kind@ != "wait_template"@,
        kind@ != "wait_template_absent"@,
        kind@ != "wait_stable"@,
        kind@ != "wait_pixels_stable"@,
        kind@ != "click_text"@,
        kind@ != "wait_text"@,
    ensures
        forall|config: CustomWorkflowConfig|
            step_outcome(r) == #[trigger] step_operation(config, *defaults, *step, context@),
{
    if str_equal(kind, "paste") || str_equal(kind, "paste_text") {
        let text = custom_step_text(step, context);
        if is_empty_text(text.as_str()) {
            return Err(owned("custom workflow paste step missing text"));
        }
        return Ok(
            WorkflowOperation::PasteText { text, clipboard_hold_ms: defaults.clipboard_hold_ms },
        );
    }
    if str_equal(kind, "send_chat") || str_equal(kind, "reply") {
        let message = custom_step_message(step, context);
        if is_empty_text(message.as_str()) {
            return Err(owned("custom workflow send_chat step missing message"));
        }
        return Ok(WorkflowOperation::SendHall { message });
    }
    if str_equal(kind, "send_current_chat") {
        let message = custom_step_message(step, context);
        if is_empty_text(message.as_str()) {
            return Err(owned("custom workflow send_current_chat step missing message"));
        }
        return Ok(WorkflowOperation::SendCurrentChat { message });
    }
    if str_equal(kind, "send_friend_message") || str_equal(kind, "friend_reply") {
        let message = custom_step_message(step, context);
        if is_empty_text(message.as_str()) {
            return Err(owned("custom workflow send_friend_message step missing message"));
        }
        let target = custom_step_target(step, context);
        if is_empty_text(target.as_str()) {
            return Err(owned("custom workflow send_friend_message step missing target"));
        }
        return Ok(WorkflowOperation::SendFriendMessage { target, message });
    }
    if str_equal(kind, "invite_user") || str_equal(kind, "invite_current_user") {
        let target = custom_step_target(step, context);
        if is_empty_text(target.as_str()) {
            return Err(owned("custom workflow invite step missing target"));
        }
        return Ok(WorkflowOperation::InviteUser { target });
    }
    if str_equal(kind, "return_primary") || str_equal(kind, "ensure_primary") {
        return Ok(WorkflowOperation::EnsureResidency { target: WorkflowResidency::Primary });
    }
    if str_equal(kind, "ensure_current_hall") {
        return Ok(
            WorkflowOperation::EnsureResidency { target: WorkflowResidency::SecondaryCurrentHall },
        );
    }
    Err(cat2("unsupported custom workflow step type: ", kind))
}

// ---------------------------------------------------------------------------
// The plan of a call
// ---------------------------------------------------------------------------
/// What a call of a workflow asks to be done.
#[derive(Debug)]
pub struct WorkflowPlan {
    pub workflow: String,
    pub confirmation: Option<WorkflowConfirmation>,
    pub operations: Vec<WorkflowOperation>,
    pub success_message: Option<String>,
}

/// What a call of a workflow asks to be done, as plain values.
#[verifier::ext_equal]
pub struct PlanView {
    pub workflow: Seq<char>,
    pub confirmation: Option<ConfirmationView>,
    pub operations: Seq<OperationView>,
    pub success_message: Option<Seq<char>>,
}

impl View for WorkflowPlan {
    type V = PlanView;

    open spec fn view(&self) -> PlanView {
        PlanView {
            workflow: self.workflow@,
            confirmation: match self.confirmation {
                Some(confirmation) => Some(confirmation@),
                None => None,
            },
            operations: operation_views(self.operations@),
            success_message: match self.success_message {
                Some(message) => Some(message@),
                None => None,
            },
        }
    }
}

/// The operations of the first `n` steps, or why there are none.
pub open spec fn steps_operations(
    config: CustomWorkflowConfig,
    defaults: WorkflowDefaults,
    steps: Seq<CustomWorkflowStep>,
    call: InvocationView,
    n: int,
) -> Result<Seq<OperationView>, Seq<char>>
    decreases n,
{
    if n <= 0 {
        Ok(Seq::empty())
    } else {
        match steps_operations(config, defaults, steps, call, n - 1) {
            Ok(before) => match step_operation(config, defaults, steps[n - 1], call) {
                Ok(operation) => Ok(
                    before.push(operation) + pause_after(config, defaults, steps[n - 1]),
                ),
                Err(reason) => Err(reason),
            },
            Err(reason) => Err(reason),
        }
    }
}

/// The question before a workflow runs.
pub open spec fn confirmation_of(
    defaults: WorkflowDefaults,
    workflow: CustomWorkflowDefinition,
    call: InvocationView,
) -> ConfirmationView {
    ConfirmationView {
        message: if blank(workflow.confirm_message@) {
            call.username + " 请求执行 "@ + call.command.name + ",@确认@跳过"@
        } else {
            rendered(trimmed(workflow.confirm_message@), call)
        },
        message_types: string_views(workflow.confirm_message_types@),
        timeout_ms: given(workflow.confirm_timeout_ms, defaults.decision_timeout_ms),
        poll_ms: poll_of(workflow.confirm_poll_ms, defaults.decision_poll_ms),
    }
}

/// The plan of a call, or why there is none.
pub open spec fn plan_of(
    config: CustomWorkflowConfig,
    defaults: WorkflowDefaults,
    call: InvocationView,
) -> Result<PlanView, Seq<char>> {
    match named_workflow(config.workflows@, call.command.workflow) {
        None => Err("custom workflow not found: "@ + call.command.workflow),
        Some(i) => {
            let workflow = config.workflows@[i];
            let steps = workflow.steps@;
            if steps.len() == 0 {
                Err("custom workflow has no steps: "@ + call.command.workflow)
            } else {
                match steps_operations(config, defaults, steps, call, steps.len() as int) {
                    Err(reason) => Err(reason),
                    Ok(operations) => Ok(
                        PlanView {
                            workflow: call.command.workflow,
                            confirmation: if workflow.confirm_before_run {
                                Some(confirmation_of(defaults, workflow, call))
                            } else {
                                None
                            },
                            operations,
                            success_message: if blank(workflow.success_message@) {
                                None
                            } else {
                                Some(rendered(trimmed(workflow.success_message@), call))
                            },
                        },
                    ),
                }
            }
        },
    }
}

/// A plan, or why there is none.
pub open spec fn plan_outcome(r: Result<WorkflowPlan, String>) -> Result<PlanView, Seq<char>> {
    match r {
        Ok(plan) => Ok(plan@),
        Err(reason) => Err(reason@),
    }
}

/// The question before a workflow runs.
fn prepare_confirmation(
    defaults: &WorkflowDefaults,
    workflow: &CustomWorkflowDefinition,
    context: &WorkflowContext,
) -> (r: WorkflowConfirmation)
    requires
        context.wf(),
    ensures
        r@ == confirmation_of(*defaults, *workflow, context@),
{
    let message = if is_blank(workflow.confirm_message.as_str()) {
        cat4(
            context.username.as_str(),
            " 请求执行 ",
            context.command.as_str(),
            ",@确认@跳过",
        )
    } else {
        context.render(trim(workflow.confirm_message.as_str()).as_str())
    };
    WorkflowConfirmation {
        message,
        message_types: copy_strings(&workflow.confirm_message_types),
        timeout_ms: given_number(workflow.confirm_timeout_ms, defaults.decision_timeout_ms),
        poll_ms: resolved_poll_ms(workflow.confirm_poll_ms, defaults.decision_poll_ms),
    }
}

/// Once a step asks for nothing that can be done, nothing can be.
proof fn lemma_reason_stays(
    config: CustomWorkflowConfig,
    defaults: WorkflowDefaults,
    steps: Seq<CustomWorkflowStep>,
    call: InvocationView,
    i: int,
    n: int,
)
    requires
        i <= n,
        steps_operations(config, defaults, steps, call, i) is Err,
    ensures
        steps_operations(config, defaults, steps, call, n) == steps_operations(
            config,
            defaults,
            steps,
            call,
            i,
        ),
    decreases n - i,
{
    if i < n {
        lemma_reason_stays(config, defaults, steps, call, i, n - 1);
    }
}

/// The operations of a workflow's steps, or why there are none.
fn prepare_operations(
    config: &CustomWorkflowConfig,
    defaults: &WorkflowDefaults,
    steps: &Vec<CustomWorkflowStep>,
    context: &WorkflowContext,
) -> (r: Result<Vec<WorkflowOperation>, String>)
    requires
        context.wf(),
    ensures
        match r {
            Ok(operations) => steps_operations(
                *config,
                *defaults,
                steps@,
                context@,
                steps@.len() as int,
            ) == Ok::<Seq<OperationView>, Seq<char>>(operation_views(operations@)),
            Err(reason) => steps_operations(
                *config,
                *defaults,
                steps@,
                context@,
                steps@.len() as int,
            ) == Err::<Seq<OperationView>, Seq<char>>(reason@),
        },
{
    let mut operations: Vec<WorkflowOperation> = Vec::new();
    let mut i: usize = 0;
    assert(operation_views(operations@) =~= Seq::empty());
    while i < steps.len()
        invariant
            context.wf(),
            i <= steps@.len(),
            steps_operations(*config, *defaults, steps@, context@, i as int) == Ok::<
                Seq<OperationView>,
                Seq<char>,
            >(operation_views(operations@)),
        decreases steps@.len() - i,
    {
        let ghost before = operations@;
        let step = &steps[i];
        match prepare_step(config, defaults, step, context) {
            Ok(operation) => {
                let ghost view = operation@;
                operations.push(operation);
                assert(operation_views(operations@) =~= operation_views(before).push(view));
                if !step_consumes_wait(step, config.wait_template_absent_stable_default) {
                    let wait_ms: u64 = given_number(step.wait_ms, defaults.default_step_wait_ms);
                    if wait_ms > 0 {
                        operations.push(WorkflowOperation::Wait { duration_ms: wait_ms });
                    }
                }
                assert(operation_views(operations@) =~= operation_views(before).push(view)
                    + pause_after(*config, *defaults, *step));
            },
            Err(reason) => {
                proof {
                    lemma_reason_stays(
                        *config,
                        *defaults,
                        steps@,
                        context@,
                        i + 1,
                        steps@.len() as int,
                    );
                }
                return Err(reason);
            },
        }
        i = i + 1;
    }
    Ok(operations)
}

/// The plan of a call, or why there is none.
pub fn prepare(
    config: &CustomWorkflowConfig,
    defaults: &WorkflowDefaults,
    invocation: &CustomWorkflowInvocation,
) -> (r: Result<WorkflowPlan, String>)
    ensures
        plan_outcome(r) == plan_of(*config, *defaults, invocation@),
{
    let name = invocation.command.workflow.as_str();
    let i: usize = match find_workflow(config, name) {
        Some(i) => i,
        None => {
            return Err(cat2("custom workflow not found: ", name));
        },
    };
    let workflow = &config.workflows[i];
    if workflow.steps.len() == 0 {
        return Err(cat2("custom workflow has no steps: ", name));
    }
    let context = WorkflowContext::new(invocation);
    let confirmation = if workflow.confirm_before_run {
        Some(prepare_confirmation(defaults, workflow, &context))
    } else {
        None
    };
    let operations = match prepare_operations(config, defaults, &workflow.steps, &context) {
        Ok(operations) => operations,
        Err(reason) => {
            return Err(reason);
        },
    };
    let success_message = if is_blank(workflow.success_message.as_str()) {
        None
    } else {
        Some(context.render(trim(workflow.success_message.as_str()).as_str()))
    };
    Ok(
        WorkflowPlan {
            workflow: invocation.command.workflow.clone(),
            confirmation,
            operations,
            success_message,
        },
    )
}

// ---------------------------------------------------------------------------
// What holds of it
// ---------------------------------------------------------------------------
/// How often an operation looks at the screen, where it does.
pub open spec fn polls(operation: OperationView) -> Option<u64> {
    match operation {
        OperationView::WaitTemplate { poll_ms, .. } => Some(poll_ms),
        OperationView::ClickTemplate { poll_ms, .. } => Some(poll_ms),
        OperationView::WaitTemplateAbsent { poll_ms, .. } => Some(poll_ms),
        OperationView::WaitPixelsStable { poll_ms, .. } => Some(poll_ms),
        OperationView::WaitText { poll_ms, .. } => Some(poll_ms),
        OperationView::ClickText { poll_ms, .. } => Some(poll_ms),
        _ => None,
    }
}

/// No operation of a step looks at the screen more often than it may, and no key
/// is held longer than it may.
pub proof fn law_operation_limits(
    config: CustomWorkflowConfig,
    defaults: WorkflowDefaults,
    step: CustomWorkflowStep,
    call: InvocationView,
)
    requires
        step_operation(config, defaults, step, call) is Ok,
    ensures
        polls(step_operation(config, defaults, step, call)->Ok_0) matches Some(poll_ms) ==> poll_ms
            >= MIN_POLL_MS,
        step_operation(config, defaults, step, call)->Ok_0 matches OperationView::HoldKey {
            duration_seconds,
            ..
        } ==> 1 <= duration_seconds <= config.max_hold_key_seconds,
{
    let argument = given(step.hold_seconds_arg, 1usize);
    let argv = words(call.command.args);
    if 1 <= argument <= argv.len() && all_digits(argv[argument - 1]) {
        lemma_digits_not_negative(argv[argument - 1]);
    }
}

/// A plan stands only where every step of the workflow asks for something that
/// can be done.
pub proof fn law_plan_is_complete(
    config: CustomWorkflowConfig,
    defaults: WorkflowDefaults,
    call: InvocationView,
    i: int,
    k: int,
)
    requires
        plan_of(config, defaults, call) is Ok,
        named_workflow(config.workflows@, call.command.workflow) == Some(i),
        0 <= k < config.workflows@[i].steps@.len(),
    ensures
        step_operation(config, defaults, config.workflows@[i].steps@[k], call) is Ok,
{
    let steps = config.workflows@[i].steps@;
    if step_operation(config, defaults, steps[k], call) is Err {
        assert(steps_operations(config, defaults, steps, call, k + 1) is Err);
        lemma_reason_stays(config, defaults, steps, call, k + 1, steps.len() as int);
    }
}

/// A key that is held is not followed by a wait, whatever the step says.
pub proof fn law_hold_has_no_pause(
    config: CustomWorkflowConfig,
    defaults: WorkflowDefaults,
    step: CustomWorkflowStep,
)
    requires
        trimmed(step.step_type@) == "hold_key"@,
    ensures
        pause_after(config, defaults, step).len() == 0,
{
}

} // verus!
