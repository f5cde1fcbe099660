//! What a workflow asks to be done.
use vstd::prelude::*;
use crate::config::checks::PointConfig;
use crate::config::checks::RectConfig;
use crate::config::checks::Single;

verus! {

/// A place on the screen.
#[derive(Clone, Copy, Debug, PartialEq, Eq, Structural)]
pub struct WorkflowPoint {
    pub x: i32,
    pub y: i32,
}

impl From<PointConfig> for WorkflowPoint {
    fn from(value: PointConfig) -> (r: Self) {
        WorkflowPoint { x: value.x, y: value.y }
    }
}

impl vstd::std_specs::convert::FromSpecImpl<PointConfig> for WorkflowPoint {
    open spec fn obeys_from_spec() -> bool {
        true
    }

    open spec fn from_spec(value: PointConfig) -> Self {
        WorkflowPoint { x: value.x, y: value.y }
    }
}

/// A part of the screen.
#[derive(Clone, Copy, Debug, PartialEq, Eq, Structural)]
pub struct WorkflowRect {
    pub x: i32,
    pub y: i32,
    pub width: u32,
    pub height: u32,
}

impl From<RectConfig> for WorkflowRect {
    fn from(value: RectConfig) -> (r: Self) {
        WorkflowRect { x: value.x, y: value.y, width: value.width, height: value.height }
    }
}

impl vstd::std_specs::convert::FromSpecImpl<RectConfig> for WorkflowRect {
    open spec fn obeys_from_spec() -> bool {
        true
    }

    open spec fn from_spec(value: RectConfig) -> Self {
        WorkflowRect { x: value.x, y: value.y, width: value.width, height: value.height }
    }
}

/// When a part of the screen counts as unmoved.
#[derive(Clone, Copy, Debug, PartialEq, Eq, Structural)]
pub struct WorkflowPixelStability {
    pub timeout_ms: u64,
    pub mean_threshold: Single,
    pub changed_ratio_threshold: Single,
}

/// Where the assistant is to stand.
#[derive(Clone, Copy, Debug, PartialEq, Eq, Structural)]
pub enum WorkflowResidency {
    Primary,
    SecondaryCurrentHall,
}

/// What a workflow asks to be done.
#[derive(Clone, Debug, PartialEq, Eq)]
pub enum WorkflowOperation {
    Wait { duration_ms: u64 },
    PressKey { key: String },
    HoldKey { key: String, duration_seconds: u64 },
    ActivateGame { after_activate_ms: u64 },
    FocusGame { after_activate_ms: u64 },
    ClickPoint { point: WorkflowPoint },
    WaitTemplate { template: String, region: WorkflowRect, threshold: Single, timeout_ms: u64, poll_ms: u64 },
    ClickTemplate { template: String, region: WorkflowRect, threshold: Single, timeout_ms: u64, poll_ms: u64, offset: WorkflowPoint },
    WaitTemplateAbsent { template: String, region: WorkflowRect, threshold: Single, timeout_ms: u64, poll_ms: u64, stability: Option<WorkflowPixelStability> },
    WaitPixelsStable { region: WorkflowRect, poll_ms: u64, stability: WorkflowPixelStability },
    WaitText { expected: String, region: WorkflowRect, timeout_ms: u64, poll_ms: u64 },
    ClickText { expected: String, region: WorkflowRect, timeout_ms: u64, poll_ms: u64, offset: WorkflowPoint },
    PasteText { text: String, clipboard_hold_ms: u64 },
    SendHall { message: String },
    SendCurrentChat { message: String },
    SendFriendMessage { target: String, message: String },
    InviteUser { target: String },
    EnsureResidency { target: WorkflowResidency },
}

/// What a workflow asks to be done, as plain values.
#[verifier::ext_equal]
pub enum OperationView {
    Wait { duration_ms: u64 },
    PressKey { key: Seq<char> },
    HoldKey { key: Seq<char>, duration_seconds: u64 },
    ActivateGame { after_activate_ms: u64 },
    FocusGame { after_activate_ms: u64 },
    ClickPoint { point: WorkflowPoint },
    WaitTemplate { template: Seq<char>, region: WorkflowRect, threshold: Single, timeout_ms: u64, poll_ms: u64 },
    ClickTemplate { template: Seq<char>, region: WorkflowRect, threshold: Single, timeout_ms: u64, poll_ms: u64, offset: WorkflowPoint },
    WaitTemplateAbsent { template: Seq<char>, region: WorkflowRect, threshold: Single, timeout_ms: u64, poll_ms: u64, stability: Option<WorkflowPixelStability> },
    WaitPixelsStable { region: WorkflowRect, poll_ms: u64, stability: WorkflowPixelStability },
    WaitText { expected: Seq<char>, region: WorkflowRect, timeout_ms: u64, poll_ms: u64 },
    ClickText { expected: Seq<char>, region: WorkflowRect, timeout_ms: u64, poll_ms: u64, offset: WorkflowPoint },
    PasteText { text: Seq<char>, clipboard_hold_ms: u64 },
    SendHall { message: Seq<char> },
    SendCurrentChat { message: Seq<char> },
    SendFriendMessage { target: Seq<char>, message: Seq<char> },
    InviteUser { target: Seq<char> },
    EnsureResidency { target: WorkflowResidency },
}

impl View for WorkflowOperation {
    type V = OperationView;

    open spec fn view(&self) -> OperationView {
        match self {
            WorkflowOperation::Wait { duration_ms } => OperationView::Wait { duration_ms: *duration_ms },
            WorkflowOperation::PressKey { key } => OperationView::PressKey { key: key@ },
            WorkflowOperation::HoldKey { key, duration_seconds } => OperationView::HoldKey { key: key@, duration_seconds: *duration_seconds },
            WorkflowOperation::ActivateGame { after_activate_ms } => OperationView::ActivateGame { after_activate_ms: *after_activate_ms },
            WorkflowOperation::FocusGame { after_activate_ms } => OperationView::FocusGame { after_activate_ms: *after_activate_ms },
            WorkflowOperation::ClickPoint { point } => OperationView::ClickPoint { point: *point },
            WorkflowOperation::WaitTemplate { template, region, threshold, timeout_ms, poll_ms } => OperationView::WaitTemplate { template: template@, region: *region, threshold: *threshold, timeout_ms: *timeout_ms, poll_ms: *poll_ms },
            WorkflowOperation::ClickTemplate { template, region, threshold, timeout_ms, poll_ms, offset } => OperationView::ClickTemplate { template: template@, region: *region, threshold: *threshold, timeout_ms: *timeout_ms, poll_ms: *poll_ms, offset: *offset },
            WorkflowOperation::WaitTemplateAbsent { template, region, threshold, timeout_ms, poll_ms, stability } => OperationView::WaitTemplateAbsent { template: template@, region: *region, threshold: *threshold, timeout_ms: *timeout_ms, poll_ms: *poll_ms, stability: *stability },
            WorkflowOperation::WaitPixelsStable { region, poll_ms, stability } => OperationView::WaitPixelsStable { region: *region, poll_ms: *poll_ms, stability: *stability },
            WorkflowOperation::WaitText { expected, region, timeout_ms, poll_ms } => OperationView::WaitText { expected: expected@, region: *region, timeout_ms: *timeout_ms, poll_ms: *poll_ms },
            WorkflowOperation::ClickText { expected, region, timeout_ms, poll_ms, offset } => OperationView::ClickText { expected: expected@, region: *region, timeout_ms: *timeout_ms, poll_ms: *poll_ms, offset: *offset },
            WorkflowOperation::PasteText { text, clipboard_hold_ms } => OperationView::PasteText { text: text@, clipboard_hold_ms: *clipboard_hold_ms },
            WorkflowOperation::SendHall { message } => OperationView::SendHall { message: message@ },
            WorkflowOperation::SendCurrentChat { message } => OperationView::SendCurrentChat { message: message@ },
            WorkflowOperation::SendFriendMessage { target, message } => OperationView::SendFriendMessage { target: target@, message: message@ },
            WorkflowOperation::InviteUser { target } => OperationView::InviteUser { target: target@ },
            WorkflowOperation::EnsureResidency { target } => OperationView::EnsureResidency { target: *target },
        }
    }
}

/// What an operation is called.
pub open spec fn label_of(operation: OperationView) -> Seq<char> {
    match operation {
        OperationView::Wait { .. } => "wait"@,
        OperationView::PressKey { .. } => "press_key"@,
        OperationView::HoldKey { .. } => "hold_key"@,
        OperationView::ActivateGame { .. } => "activate_game"@,
        OperationView::FocusGame { .. } => "focus_game"@,
        OperationView::ClickPoint { .. } => "click"@,
        OperationView::WaitTemplate { .. } => "wait_template"@,
        OperationView::ClickTemplate { .. } => "click_template"@,
        OperationView::WaitTemplateAbsent { .. } => "wait_template_absent"@,
        OperationView::WaitPixelsStable { .. } => "wait_pixels_stable"@,
        OperationView::WaitText { .. } => "wait_text"@,
        OperationView::ClickText { .. } => "click_text"@,
        OperationView::PasteText { .. } => "paste_text"@,
        OperationView::SendHall { .. } => "send_chat"@,
        OperationView::SendCurrentChat { .. } => "send_current_chat"@,
        OperationView::SendFriendMessage { .. } => "send_friend_message"@,
        OperationView::InviteUser { .. } => "invite_user"@,
        OperationView::EnsureResidency { target: WorkflowResidency::Primary } => "ensure_primary"@,
        OperationView::EnsureResidency { target: WorkflowResidency::SecondaryCurrentHall } =>
            "ensure_current_hall"@,
    }
}

/// What an operation is called.
pub fn operation_label(operation: &WorkflowOperation) -> (r: &'static str)
    ensures
        r@ == label_of(operation@),
{
    match operation {
        WorkflowOperation::Wait { .. } => "wait",
        WorkflowOperation::PressKey { .. } => "press_key",
        WorkflowOperation::HoldKey { .. } => "hold_key",
        WorkflowOperation::ActivateGame { .. } => "activate_game",
        WorkflowOperation::FocusGame { .. } => "focus_game",
        WorkflowOperation::ClickPoint { .. } => "click",
        WorkflowOperation::WaitTemplate { .. } => "wait_template",
        WorkflowOperation::ClickTemplate { .. } => "click_template",
        WorkflowOperation::WaitTemplateAbsent { .. } => "wait_template_absent",
        WorkflowOperation::WaitPixelsStable { .. } => "wait_pixels_stable",
        WorkflowOperation::WaitText { .. } => "wait_text",
        WorkflowOperation::ClickText { .. } => "click_text",
        WorkflowOperation::PasteText { .. } => "paste_text",
        WorkflowOperation::SendHall { .. } => "send_chat",
        WorkflowOperation::SendCurrentChat { .. } => "send_current_chat",
        WorkflowOperation::SendFriendMessage { .. } => "send_friend_message",
        WorkflowOperation::InviteUser { .. } => "invite_user",
        WorkflowOperation::EnsureResidency { target: WorkflowResidency::Primary } =>
            "ensure_primary",
        WorkflowOperation::EnsureResidency { target: WorkflowResidency::SecondaryCurrentHall } =>
            "ensure_current_hall",
    }
}

/// A copy of an operation.
pub fn copy_operation(operation: &WorkflowOperation) -> (r: WorkflowOperation)
    ensures
        r@ == operation@,
{
    match operation {
        WorkflowOperation::Wait { duration_ms } => WorkflowOperation::Wait { duration_ms: *duration_ms },
        WorkflowOperation::PressKey { key } => WorkflowOperation::PressKey { key: key.clone() },
        WorkflowOperation::HoldKey { key, duration_seconds } => WorkflowOperation::HoldKey { key: key.clone(), duration_seconds: *duration_seconds },
        WorkflowOperation::ActivateGame { after_activate_ms } => WorkflowOperation::ActivateGame { after_activate_ms: *after_activate_ms },
        WorkflowOperation::FocusGame { after_activate_ms } => WorkflowOperation::FocusGame { after_activate_ms: *after_activate_ms },
        WorkflowOperation::ClickPoint { point } => WorkflowOperation::ClickPoint { point: *point },
        WorkflowOperation::WaitTemplate { template, region, threshold, timeout_ms, poll_ms } => WorkflowOperation::WaitTemplate { template: template.clone(), region: *region, threshold: *threshold, timeout_ms: *timeout_ms, poll_ms: *poll_ms },
        WorkflowOperation::ClickTemplate { template, region, threshold, timeout_ms, poll_ms, offset } => WorkflowOperation::ClickTemplate { template: template.clone(), region: *region, threshold: *threshold, timeout_ms: *timeout_ms, poll_ms: *poll_ms, offset: *offset },
        WorkflowOperation::WaitTemplateAbsent { template, region, threshold, timeout_ms, poll_ms, stability } => WorkflowOperation::WaitTemplateAbsent { template: template.clone(), region: *region, threshold: *threshold, timeout_ms: *timeout_ms, poll_ms: *poll_ms, stability: *stability },
        WorkflowOperation::WaitPixelsStable { region, poll_ms, stability } => WorkflowOperation::WaitPixelsStable { region: *region, poll_ms: *poll_ms, stability: *stability },
        WorkflowOperation::WaitText { expected, region, timeout_ms, poll_ms } => WorkflowOperation::WaitText { expected: expected.clone(), region: *region, timeout_ms: *timeout_ms, poll_ms: *poll_ms },
        WorkflowOperation::ClickText { expected, region, timeout_ms, poll_ms, offset } => WorkflowOperation::ClickText { expected: expected.clone(), region: *region, timeout_ms: *timeout_ms, poll_ms: *poll_ms, offset: *offset },
        WorkflowOperation::PasteText { text, clipboard_hold_ms } => WorkflowOperation::PasteText { text: text.clone(), clipboard_hold_ms: *clipboard_hold_ms },
        WorkflowOperation::SendHall { message } => WorkflowOperation::SendHall { message: message.clone() },
        WorkflowOperation::SendCurrentChat { message } => WorkflowOperation::SendCurrentChat { message: message.clone() },
        WorkflowOperation::SendFriendMessage { target, message } => WorkflowOperation::SendFriendMessage { target: target.clone(), message: message.clone() },
        WorkflowOperation::InviteUser { target } => WorkflowOperation::InviteUser { target: target.clone() },
        WorkflowOperation::EnsureResidency { target } => WorkflowOperation::EnsureResidency { target: *target },
    }
}

/// What operations ask to be done, as plain values.
pub open spec fn operation_views(operations: Seq<WorkflowOperation>) -> Seq<OperationView> {
    Seq::new(operations.len(), |i: int| operations[i]@)
}

/// Which operation something is, without what it is given.
pub open spec fn kind_number(operation: OperationView) -> int {
    match operation {
        OperationView::Wait { .. } => 0,
        OperationView::PressKey { .. } => 1,
        OperationView::HoldKey { .. } => 2,
        OperationView::ActivateGame { .. } => 3,
        OperationView::FocusGame { .. } => 4,
        OperationView::ClickPoint { .. } => 5,
        OperationView::WaitTemplate { .. } => 6,
        OperationView::ClickTemplate { .. } => 7,
        OperationView::WaitTemplateAbsent { .. } => 8,
        OperationView::WaitPixelsStable { .. } => 9,
        OperationView::WaitText { .. } => 10,
        OperationView::ClickText { .. } => 11,
        OperationView::PasteText { .. } => 12,
        OperationView::SendHall { .. } => 13,
        OperationView::SendCurrentChat { .. } => 14,
        OperationView::SendFriendMessage { .. } => 15,
        OperationView::InviteUser { .. } => 16,
        OperationView::EnsureResidency { target: WorkflowResidency::Primary } => 17,
        OperationView::EnsureResidency { target: WorkflowResidency::SecondaryCurrentHall } => 18,
    }
}

/// No two kinds of operations are called alike.
pub proof fn law_labels_differ(one: OperationView, other: OperationView)
    ensures
        label_of(one) == label_of(other) <==> kind_number(one) == kind_number(other),
{
    reveal_strlit("wait");
    reveal_strlit("press_key");
    reveal_strlit("hold_key");
    reveal_strlit("activate_game");
    reveal_strlit("focus_game");
    reveal_strlit("click");
    reveal_strlit("wait_template");
    reveal_strlit("click_template");
    reveal_strlit("wait_template_absent");
    reveal_strlit("wait_pixels_stable");
    reveal_strlit("wait_text");
    reveal_strlit("click_text");
    reveal_strlit("paste_text");
    reveal_strlit("send_chat");
    reveal_strlit("send_current_chat");
    reveal_strlit("send_friend_message");
    reveal_strlit("invite_user");
    reveal_strlit("ensure_primary");
    reveal_strlit("ensure_current_hall");
    assert("wait"@.len() == 4);
    assert("press_key"@.len() == 9 && "press_key"@[0] == 'p');
    assert("hold_key"@.len() == 8);
    assert("activate_game"@.len() == 13 && "activate_game"@[0] == 'a');
    assert("focus_game"@.len() == 10 && "focus_game"@[0] == 'f');
    assert("click"@.len() == 5);
    assert("wait_template"@.len() == 13 && "wait_template"@[0] == 'w');
    assert("click_template"@.len() == 14 && "click_template"@[0] == 'c');
    assert("wait_template_absent"@.len() == 20);
    assert("wait_pixels_stable"@.len() == 18);
    assert("wait_text"@.len() == 9 && "wait_text"@[0] == 'w');
    assert("click_text"@.len() == 10 && "click_text"@[0] == 'c');
    assert("paste_text"@.len() == 10 && "paste_text"@[0] == 'p');
    assert("send_chat"@.len() == 9 && "send_chat"@[0] == 's');
    assert("send_current_chat"@.len() == 17);
    assert("send_friend_message"@.len() == 19 && "send_friend_message"@[0] == 's');
    assert("invite_user"@.len() == 11);
    assert("ensure_primary"@.len() == 14 && "ensure_primary"@[0] == 'e');
    assert("ensure_current_hall"@.len() == 19 && "ensure_current_hall"@[0] == 'e');
}

} // verus!
