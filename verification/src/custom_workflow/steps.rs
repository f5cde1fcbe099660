//! What the steps of a workflow do, kind by kind, in terms of what the step says
//! and who called the workflow.
use vstd::prelude::*;
use crate::config::settings::blank;
use crate::custom_workflow::context::{
    law_plain_text_stays, opening, rendered, InvocationView,
};
use crate::custom_workflow::definition::template_named;
use crate::custom_workflow::definition::CustomWorkflowConfig;
use crate::custom_workflow::definition::CustomWorkflowStep;
use crate::custom_workflow::operation::OperationView;
use crate::custom_workflow::operation::WorkflowPoint;
use crate::custom_workflow::operation::WorkflowRect;
use crate::custom_workflow::operation::WorkflowResidency;
use crate::custom_workflow::calling::{gaps, name_ends, named_workflow};
use crate::custom_workflow::planning::WorkflowConfirmationDecision;
use crate::custom_workflow::planning::WorkflowDefaults;
use crate::custom_workflow::planning::{
    decision_in, hold_seconds, pause_after, plan_of, step_operation, steps_operations,
    text_or_empty,
};
use crate::scan::all_digits;
use crate::scan::{
    first_of, first_of_from, lemma_decimal_digits, occurs_at, without_leading, words,
};
use crate::text::{
    decimal, lemma_trim_nothing, string_views, trimmed, trimmed_end, trimmed_start, whitespace,
};

verus! {

/// Whether a text that may be missing says something without a name in it: it is
/// there, is not blank, and has no opening brackets.
pub open spec fn plainly_says(text: Option<String>, said: Seq<char>) -> bool {
    &&& text is Some
    &&& trimmed(text->0@) == said
    &&& said.len() > 0
    &&& forall|i: int| !#[trigger] occurs_at(said, opening(), i)
}

/// Whether a text that may be missing says nothing.
pub open spec fn says_nothing(text: Option<String>) -> bool {
    text is None || trimmed(text->0@).len() == 0
}

proof fn lemma_kind_wait()
    ensures
        "wait"@ != "sleep"@,
{
    reveal_strlit("wait");
    assert("wait"@.len() == 4);
    reveal_strlit("sleep");
    assert("sleep"@.len() == 5);
}

proof fn lemma_kind_key()
    ensures
        "key"@ != "sleep"@,
        "key"@ != "wait"@,
{
    reveal_strlit("key");
    assert("key"@.len() == 3);
    reveal_strlit("sleep");
    assert("sleep"@.len() == 5);
    reveal_strlit("wait");
    assert("wait"@.len() == 4);
}

proof fn lemma_kind_press_key()
    ensures
        "press_key"@ != "sleep"@,
        "press_key"@ != "wait"@,
        "press_key"@ != "key"@,
{
    reveal_strlit("press_key");
    assert("press_key"@.len() == 9);
    reveal_strlit("sleep");
    assert("sleep"@.len() == 5);
    reveal_strlit("wait");
    assert("wait"@.len() == 4);
    reveal_strlit("key");
    assert("key"@.len() == 3);
}

proof fn lemma_kind_hold_key()
    ensures
        "hold_key"@ != "sleep"@,
        "hold_key"@ != "wait"@,
        "hold_key"@ != "key"@,
        "hold_key"@ != "press_key"@,
{
    reveal_strlit("hold_key");
    assert("hold_key"@.len() == 8);
    reveal_strlit("sleep");
    assert("sleep"@.len() == 5);
    reveal_strlit("wait");
    assert("wait"@.len() == 4);
    reveal_strlit("key");
    assert("key"@.len() == 3);
    reveal_strlit("press_key");
    assert("press_key"@.len() == 9);
}

proof fn lemma_kind_activate_game()
    ensures
        "activate_game"@ != "sleep"@,
        "activate_game"@ != "wait"@,
        "activate_game"@ != "key"@,
        "activate_game"@ != "press_key"@,
        "activate_game"@ != "hold_key"@,
{
    reveal_strlit("activate_game");
    assert("activate_game"@.len() == 13);
    reveal_strlit("sleep");
    assert("sleep"@.len() == 5);
    reveal_strlit("wait");
    assert("wait"@.len() == 4);
    reveal_strlit("key");
    assert("key"@.len() == 3);
    reveal_strlit("press_key");
    assert("press_key"@.len() == 9);
    reveal_strlit("hold_key");
    assert("hold_key"@.len() == 8);
}

proof fn lemma_kind_focus_game()
    ensures
        "focus_game"@ != "sleep"@,
        "focus_game"@ != "wait"@,
        "focus_game"@ != "key"@,
        "focus_game"@ != "press_key"@,
        "focus_game"@ != "hold_key"@,
        "focus_game"@ != "activate_game"@,
{
    reveal_strlit("focus_game");
    assert("focus_game"@.len() == 10);
    reveal_strlit("sleep");
    assert("sleep"@.len() == 5);
    reveal_strlit("wait");
    assert("wait"@.len() == 4);
    reveal_strlit("key");
    assert("key"@.len() == 3);
    reveal_strlit("press_key");
    assert("press_key"@.len() == 9);
    reveal_strlit("hold_key");
    assert("hold_key"@.len() == 8);
    reveal_strlit("activate_game");
    assert("activate_game"@.len() == 13);
}

proof fn lemma_kind_click()
    ensures
        "click"@ != "sleep"@,
        "click"@ != "wait"@,
        "click"@ != "key"@,
        "click"@ != "press_key"@,
        "click"@ != "hold_key"@,
        "click"@ != "activate_game"@,
        "click"@ != "focus_game"@,
{
    reveal_strlit("click");
    assert("click"@.len() == 5);
    reveal_strlit("sleep");
    assert("sleep"@.len() == 5);
    reveal_strlit("wait");
    assert("wait"@.len() == 4);
    reveal_strlit("key");
    assert("key"@.len() == 3);
    reveal_strlit("press_key");
    assert("press_key"@.len() == 9);
    reveal_strlit("hold_key");
    assert("hold_key"@.len() == 8);
    reveal_strlit("activate_game");
    assert("activate_game"@.len() == 13);
    reveal_strlit("focus_game");
    assert("focus_game"@.len() == 10);
    assert("click"@[0] != "sleep"@[0]);
}

proof fn lemma_kind_click_template()
    ensures
        "click_template"@ != "sleep"@,
        "click_template"@ != "wait"@,
        "click_template"@ != "key"@,
        "click_template"@ != "press_key"@,
        "click_template"@ != "hold_key"@,
        "click_template"@ != "activate_game"@,
        "click_template"@ != "focus_game"@,
        "click_template"@ != "click"@,
{
    reveal_strlit("click_template");
    assert("click_template"@.len() == 14);
    reveal_strlit("sleep");
    assert("sleep"@.len() == 5);
    reveal_strlit("wait");
    assert("wait"@.len() == 4);
    reveal_strlit("key");
    assert("key"@.len() == 3);
    reveal_strlit("press_key");
    assert("press_key"@.len() == 9);
    reveal_strlit("hold_key");
    assert("hold_key"@.len() == 8);
    reveal_strlit("activate_game");
    assert("activate_game"@.len() == 13);
    reveal_strlit("focus_game");
    assert("focus_game"@.len() == 10);
    reveal_strlit("click");
    assert("click"@.len() == 5);
}

proof fn lemma_kind_wait_template()
    ensures
        "wait_template"@ != "sleep"@,
        "wait_template"@ != "wait"@,
        "wait_template"@ != "key"@,
        "wait_template"@ != "press_key"@,
        "wait_template"@ != "hold_key"@,
        "wait_template"@ != "activate_game"@,
        "wait_template"@ != "focus_game"@,
        "wait_template"@ != "click"@,
        "wait_template"@ != "click_template"@,
{
    reveal_strlit("wait_template");
    assert("wait_template"@.len() == 13);
    reveal_strlit("sleep");
    assert("sleep"@.len() == 5);
    reveal_strlit("wait");
    assert("wait"@.len() == 4);
    reveal_strlit("key");
    assert("key"@.len() == 3);
    reveal_strlit("press_key");
    assert("press_key"@.len() == 9);
    reveal_strlit("hold_key");
    assert("hold_key"@.len() == 8);
    reveal_strlit("activate_game");
    assert("activate_game"@.len() == 13);
    reveal_strlit("focus_game");
    assert("focus_game"@.len() == 10);
    reveal_strlit("click");
    assert("click"@.len() == 5);
    reveal_strlit("click_template");
    assert("click_template"@.len() == 14);
    assert("wait_template"@[0] != "activate_game"@[0]);
}

proof fn lemma_kind_wait_template_absent()
    ensures
        "wait_template_absent"@ != "sleep"@,
        "wait_template_absent"@ != "wait"@,
        "wait_template_absent"@ != "key"@,
        "wait_template_absent"@ != "press_key"@,
        "wait_template_absent"@ != "hold_key"@,
        "wait_template_absent"@ != "activate_game"@,
        "wait_template_absent"@ != "focus_game"@,
        "wait_template_absent"@ != "click"@,
        "wait_template_absent"@ != "click_template"@,
        "wait_template_absent"@ != "wait_template"@,
{
    reveal_strlit("wait_template_absent");
    assert("wait_template_absent"@.len() == 20);
    reveal_strlit("sleep");
    assert("sleep"@.len() == 5);
    reveal_strlit("wait");
    assert("wait"@.len() == 4);
    reveal_strlit("key");
    assert("key"@.len() == 3);
    reveal_strlit("press_key");
    assert("press_key"@.len() == 9);
    reveal_strlit("hold_key");
    assert("hold_key"@.len() == 8);
    reveal_strlit("activate_game");
    assert("activate_game"@.len() == 13);
    reveal_strlit("focus_game");
    assert("focus_game"@.len() == 10);
    reveal_strlit("click");
    assert("click"@.len() == 5);
    reveal_strlit("click_template");
    assert("click_template"@.len() == 14);
    reveal_strlit("wait_template");
    assert("wait_template"@.len() == 13);
}

proof fn lemma_kind_wait_stable()
    ensures
        "wait_stable"@ != "sleep"@,
        "wait_stable"@ != "wait"@,
        "wait_stable"@ != "key"@,
        "wait_stable"@ != "press_key"@,
        "wait_stable"@ != "hold_key"@,
        "wait_stable"@ != "activate_game"@,
        "wait_stable"@ != "focus_game"@,
        "wait_stable"@ != "click"@,
        "wait_stable"@ != "click_template"@,
        "wait_stable"@ != "wait_template"@,
        "wait_stable"@ != "wait_template_absent"@,
{
    reveal_strlit("wait_stable");
    assert("wait_stable"@.len() == 11);
    reveal_strlit("sleep");
    assert("sleep"@.len() == 5);
    reveal_strlit("wait");
    assert("wait"@.len() == 4);
    reveal_strlit("key");
    assert("key"@.len() == 3);
    reveal_strlit("press_key");
    assert("press_key"@.len() == 9);
    reveal_strlit("hold_key");
    assert("hold_key"@.len() == 8);
    reveal_strlit("activate_game");
    assert("activate_game"@.len() == 13);
    reveal_strlit("focus_game");
    assert("focus_game"@.len() == 10);
    reveal_strlit("click");
    assert("click"@.len() == 5);
    reveal_strlit("click_template");
    assert("click_template"@.len() == 14);
    reveal_strlit("wait_template");
    assert("wait_template"@.len() == 13);
    reveal_strlit("wait_template_absent");
    assert("wait_template_absent"@.len() == 20);
}

proof fn lemma_kind_wait_pixels_stable()
    ensures
        "wait_pixels_stable"@ != "sleep"@,
        "wait_pixels_stable"@ != "wait"@,
        "wait_pixels_stable"@ != "key"@,
        "wait_pixels_stable"@ != "press_key"@,
        "wait_pixels_stable"@ != "hold_key"@,
        "wait_pixels_stable"@ != "activate_game"@,
        "wait_pixels_stable"@ != "focus_game"@,
        "wait_pixels_stable"@ != "click"@,
        "wait_pixels_stable"@ != "click_template"@,
        "wait_pixels_stable"@ != "wait_template"@,
        "wait_pixels_stable"@ != "wait_template_absent"@,
        "wait_pixels_stable"@ != "wait_stable"@,
{
    reveal_strlit("wait_pixels_stable");
    assert("wait_pixels_stable"@.len() == 18);
    reveal_strlit("sleep");
    assert("sleep"@.len() == 5);
    reveal_strlit("wait");
    assert("wait"@.len() == 4);
    reveal_strlit("key");
    assert("key"@.len() == 3);
    reveal_strlit("press_key");
    assert("press_key"@.len() == 9);
    reveal_strlit("hold_key");
    assert("hold_key"@.len() == 8);
    reveal_strlit("activate_game");
    assert("activate_game"@.len() == 13);
    reveal_strlit("focus_game");
    assert("focus_game"@.len() == 10);
    reveal_strlit("click");
    assert("click"@.len() == 5);
    reveal_strlit("click_template");
    assert("click_template"@.len() == 14);
    reveal_strlit("wait_template");
    assert("wait_template"@.len() == 13);
    reveal_strlit("wait_template_absent");
    assert("wait_template_absent"@.len() == 20);
    reveal_strlit("wait_stable");
    assert("wait_stable"@.len() == 11);
}

proof fn lemma_kind_click_text()
    ensures
        "click_text"@ != "sleep"@,
        "click_text"@ != "wait"@,
        "click_text"@ != "key"@,
        "click_text"@ != "press_key"@,
        "click_text"@ != "hold_key"@,
        "click_text"@ != "activate_game"@,
        "click_text"@ != "focus_game"@,
        "click_text"@ != "click"@,
        "click_text"@ != "click_template"@,
        "click_text"@ != "wait_template"@,
        "click_text"@ != "wait_template_absent"@,
        "click_text"@ != "wait_stable"@,
        "click_text"@ != "wait_pixels_stable"@,
{
    reveal_strlit("click_text");
    assert("click_text"@.len() == 10);
    reveal_strlit("sleep");
    assert("sleep"@.len() == 5);
    reveal_strlit("wait");
    assert("wait"@.len() == 4);
    reveal_strlit("key");
    assert("key"@.len() == 3);
    reveal_strlit("press_key");
    assert("press_key"@.len() == 9);
    reveal_strlit("hold_key");
    assert("hold_key"@.len() == 8);
    reveal_strlit("activate_game");
    assert("activate_game"@.len() == 13);
    reveal_strlit("focus_game");
    assert("focus_game"@.len() == 10);
    reveal_strlit("click");
    assert("click"@.len() == 5);
    reveal_strlit("click_template");
    assert("click_template"@.len() == 14);
    reveal_strlit("wait_template");
    assert("wait_template"@.len() == 13);
    reveal_strlit("wait_template_absent");
    assert("wait_template_absent"@.len() == 20);
    reveal_strlit("wait_stable");
    assert("wait_stable"@.len() == 11);
    reveal_strlit("wait_pixels_stable");
    assert("wait_pixels_stable"@.len() == 18);
    assert("click_text"@[0] != "focus_game"@[0]);
}

proof fn lemma_kind_wait_text()
    ensures
        "wait_text"@ != "sleep"@,
        "wait_text"@ != "wait"@,
        "wait_text"@ != "key"@,
        "wait_text"@ != "press_key"@,
        "wait_text"@ != "hold_key"@,
        "wait_text"@ != "activate_game"@,
        "wait_text"@ != "focus_game"@,
        "wait_text"@ != "click"@,
        "wait_text"@ != "click_template"@,
        "wait_text"@ != "wait_template"@,
        "wait_text"@ != "wait_template_absent"@,
        "wait_text"@ != "wait_stable"@,
        "wait_text"@ != "wait_pixels_stable"@,
        "wait_text"@ != "click_text"@,
{
    reveal_strlit("wait_text");
    assert("wait_text"@.len() == 9);
    reveal_strlit("sleep");
    assert("sleep"@.len() == 5);
    reveal_strlit("wait");
    assert("wait"@.len() == 4);
    reveal_strlit("key");
    assert("key"@.len() == 3);
    reveal_strlit("press_key");
    assert("press_key"@.len() == 9);
    reveal_strlit("hold_key");
    assert("hold_key"@.len() == 8);
    reveal_strlit("activate_game");
    assert("activate_game"@.len() == 13);
    reveal_strlit("focus_game");
    assert("focus_game"@.len() == 10);
    reveal_strlit("click");
    assert("click"@.len() == 5);
    reveal_strlit("click_template");
    assert("click_template"@.len() == 14);
    reveal_strlit("wait_template");
    assert("wait_template"@.len() == 13);
    reveal_strlit("wait_template_absent");
    assert("wait_template_absent"@.len() == 20);
    reveal_strlit("wait_stable");
    assert("wait_stable"@.len() == 11);
    reveal_strlit("wait_pixels_stable");
    assert("wait_pixels_stable"@.len() == 18);
    reveal_strlit("click_text");
    assert("click_text"@.len() == 10);
    assert("wait_text"@[0] != "press_key"@[0]);
}

proof fn lemma_kind_paste()
    ensures
        "paste"@ != "sleep"@,
        "paste"@ != "wait"@,
        "paste"@ != "key"@,
        "paste"@ != "press_key"@,
        "paste"@ != "hold_key"@,
        "paste"@ != "activate_game"@,
        "paste"@ != "focus_game"@,
        "paste"@ != "click"@,
        "paste"@ != "click_template"@,
        "paste"@ != "wait_template"@,
        "paste"@ != "wait_template_absent"@,
        "paste"@ != "wait_stable"@,
        "paste"@ != "wait_pixels_stable"@,
        "paste"@ != "click_text"@,
        "paste"@ != "wait_text"@,
{
    reveal_strlit("paste");
    assert("paste"@.len() == 5);
    reveal_strlit("sleep");
    assert("sleep"@.len() == 5);
    reveal_strlit("wait");
    assert("wait"@.len() == 4);
    reveal_strlit("key");
    assert("key"@.len() == 3);
    reveal_strlit("press_key");
    assert("press_key"@.len() == 9);
    reveal_strlit("hold_key");
    assert("hold_key"@.len() == 8);
    reveal_strlit("activate_game");
    assert("activate_game"@.len() == 13);
    reveal_strlit("focus_game");
    assert("focus_game"@.len() == 10);
    reveal_strlit("click");
    assert("click"@.len() == 5);
    reveal_strlit("click_template");
    assert("click_template"@.len() == 14);
    reveal_strlit("wait_template");
    assert("wait_template"@.len() == 13);
    reveal_strlit("wait_template_absent");
    assert("wait_template_absent"@.len() == 20);
    reveal_strlit("wait_stable");
    assert("wait_stable"@.len() == 11);
    reveal_strlit("wait_pixels_stable");
    assert("wait_pixels_stable"@.len() == 18);
    reveal_strlit("click_text");
    assert("click_text"@.len() == 10);
    reveal_strlit("wait_text");
    assert("wait_text"@.len() == 9);
    assert("paste"@[0] != "sleep"@[0]);
    assert("paste"@[0] != "click"@[0]);
}

proof fn lemma_kind_paste_text()
    ensures
        "paste_text"@ != "sleep"@,
        "paste_text"@ != "wait"@,
        "paste_text"@ != "key"@,
        "paste_text"@ != "press_key"@,
        "paste_text"@ != "hold_key"@,
        "paste_text"@ != "activate_game"@,
        "paste_text"@ != "focus_game"@,
        "paste_text"@ != "click"@,
        "paste_text"@ != "click_template"@,
        "paste_text"@ != "wait_template"@,
        "paste_text"@ != "wait_template_absent"@,
        "paste_text"@ != "wait_stable"@,
        "paste_text"@ != "wait_pixels_stable"@,
        "paste_text"@ != "click_text"@,
        "paste_text"@ != "wait_text"@,
        "paste_text"@ != "paste"@,
{
    reveal_strlit("paste_text");
    assert("paste_text"@.len() == 10);
    reveal_strlit("sleep");
    assert("sleep"@.len() == 5);
    reveal_strlit("wait");
    assert("wait"@.len() == 4);
    reveal_strlit("key");
    assert("key"@.len() == 3);
    reveal_strlit("press_key");
    assert("press_key"@.len() == 9);
    reveal_strlit("hold_key");
    assert("hold_key"@.len() == 8);
    reveal_strlit("activate_game");
    assert("activate_game"@.len() == 13);
    reveal_strlit("focus_game");
    assert("focus_game"@.len() == 10);
    reveal_strlit("click");
    assert("click"@.len() == 5);
    reveal_strlit("click_template");
    assert("click_template"@.len() == 14);
    reveal_strlit("wait_template");
    assert("wait_template"@.len() == 13);
    reveal_strlit("wait_template_absent");
    assert("wait_template_absent"@.len() == 20);
    reveal_strlit("wait_stable");
    assert("wait_stable"@.len() == 11);
    reveal_strlit("wait_pixels_stable");
    assert("wait_pixels_stable"@.len() == 18);
    reveal_strlit("click_text");
    assert("click_text"@.len() == 10);
    reveal_strlit("wait_text");
    assert("wait_text"@.len() == 9);
    reveal_strlit("paste");
    assert("paste"@.len() == 5);
    assert("paste_text"@[0] != "focus_game"@[0]);
    assert("paste_text"@[0] != "click_text"@[0]);
}

proof fn lemma_kind_send_chat()
    ensures
        "send_chat"@ != "sleep"@,
        "send_chat"@ != "wait"@,
        "send_chat"@ != "key"@,
        "send_chat"@ != "press_key"@,
        "send_chat"@ != "hold_key"@,
        "send_chat"@ != "activate_game"@,
        "send_chat"@ != "focus_game"@,
        "send_chat"@ != "click"@,
        "send_chat"@ != "click_template"@,
        "send_chat"@ != "wait_template"@,
        "send_chat"@ != "wait_template_absent"@,
        "send_chat"@ != "wait_stable"@,
        "send_chat"@ != "wait_pixels_stable"@,
        "send_chat"@ != "click_text"@,
        "send_chat"@ != "wait_text"@,
        "send_chat"@ != "paste"@,
        "send_chat"@ != "paste_text"@,
{
    reveal_strlit("send_chat");
    assert("send_chat"@.len() == 9);
    reveal_strlit("sleep");
    assert("sleep"@.len() == 5);
    reveal_strlit("wait");
    assert("wait"@.len() == 4);
    reveal_strlit("key");
    assert("key"@.len() == 3);
    reveal_strlit("press_key");
    assert("press_key"@.len() == 9);
    reveal_strlit("hold_key");
    assert("hold_key"@.len() == 8);
    reveal_strlit("activate_game");
    assert("activate_game"@.len() == 13);
    reveal_strlit("focus_game");
    assert("focus_game"@.len() == 10);
    reveal_strlit("click");
    assert("click"@.len() == 5);
    reveal_strlit("click_template");
    assert("click_template"@.len() == 14);
    reveal_strlit("wait_template");
    assert("wait_template"@.len() == 13);
    reveal_strlit("wait_template_absent");
    assert("wait_template_absent"@.len() == 20);
    reveal_strlit("wait_stable");
    assert("wait_stable"@.len() == 11);
    reveal_strlit("wait_pixels_stable");
    assert("wait_pixels_stable"@.len() == 18);
    reveal_strlit("click_text");
    assert("click_text"@.len() == 10);
    reveal_strlit("wait_text");
    assert("wait_text"@.len() == 9);
    reveal_strlit("paste");
    assert("paste"@.len() == 5);
    reveal_strlit("paste_text");
    assert("paste_text"@.len() == 10);
    assert("send_chat"@[0] != "press_key"@[0]);
    assert("send_chat"@[0] != "wait_text"@[0]);
}

proof fn lemma_kind_reply()
    ensures
        "reply"@ != "sleep"@,
        "reply"@ != "wait"@,
        "reply"@ != "key"@,
        "reply"@ != "press_key"@,
        "reply"@ != "hold_key"@,
        "reply"@ != "activate_game"@,
        "reply"@ != "focus_game"@,
        "reply"@ != "click"@,
        "reply"@ != "click_template"@,
        "reply"@ != "wait_template"@,
        "reply"@ != "wait_template_absent"@,
        "reply"@ != "wait_stable"@,
        "reply"@ != "wait_pixels_stable"@,
        "reply"@ != "click_text"@,
        "reply"@ != "wait_text"@,
        "reply"@ != "paste"@,
        "reply"@ != "paste_text"@,
        "reply"@ != "send_chat"@,
{
    reveal_strlit("reply");
    assert("reply"@.len() == 5);
    reveal_strlit("sleep");
    assert("sleep"@.len() == 5);
    reveal_strlit("wait");
    assert("wait"@.len() == 4);
    reveal_strlit("key");
    assert("key"@.len() == 3);
    reveal_strlit("press_key");
    assert("press_key"@.len() == 9);
    reveal_strlit("hold_key");
    assert("hold_key"@.len() == 8);
    reveal_strlit("activate_game");
    assert("activate_game"@.len() == 13);
    reveal_strlit("focus_game");
    assert("focus_game"@.len() == 10);
    reveal_strlit("click");
    assert("click"@.len() == 5);
    reveal_strlit("click_template");
    assert("click_template"@.len() == 14);
    reveal_strlit("wait_template");
    assert("wait_template"@.len() == 13);
    reveal_strlit("wait_template_absent");
    assert("wait_template_absent"@.len() == 20);
    reveal_strlit("wait_stable");
    assert("wait_stable"@.len() == 11);
    reveal_strlit("wait_pixels_stable");
    assert("wait_pixels_stable"@.len() == 18);
    reveal_strlit("click_text");
    assert("click_text"@.len() == 10);
    reveal_strlit("wait_text");
    assert("wait_text"@.len() == 9);
    reveal_strlit("paste");
    assert("paste"@.len() == 5);
    reveal_strlit("paste_text");
    assert("paste_text"@.len() == 10);
    reveal_strlit("send_chat");
    assert("send_chat"@.len() == 9);
    assert("reply"@[0] != "sleep"@[0]);
    assert("reply"@[0] != "click"@[0]);
    assert("reply"@[0] != "paste"@[0]);
}

proof fn lemma_kind_send_current_chat()
    ensures
        "send_current_chat"@ != "sleep"@,
        "send_current_chat"@ != "wait"@,
        "send_current_chat"@ != "key"@,
        "send_current_chat"@ != "press_key"@,
        "send_current_chat"@ != "hold_key"@,
        "send_current_chat"@ != "activate_game"@,
        "send_current_chat"@ != "focus_game"@,
        "send_current_chat"@ != "click"@,
        "send_current_chat"@ != "click_template"@,
        "send_current_chat"@ != "wait_template"@,
        "send_current_chat"@ != "wait_template_absent"@,
        "send_current_chat"@ != "wait_stable"@,
        "send_current_chat"@ != "wait_pixels_stable"@,
        "send_current_chat"@ != "click_text"@,
        "send_current_chat"@ != "wait_text"@,
        "send_current_chat"@ != "paste"@,
        "send_current_chat"@ != "paste_text"@,
        "send_current_chat"@ != "send_chat"@,
        "send_current_chat"@ != "reply"@,
{
    reveal_strlit("send_current_chat");
    assert("send_current_chat"@.len() == 17);
    reveal_strlit("sleep");
    assert("sleep"@.len() == 5);
    reveal_strlit("wait");
    assert("wait"@.len() == 4);
    reveal_strlit("key");
    assert("key"@.len() == 3);
    reveal_strlit("press_key");
    assert("press_key"@.len() == 9);
    reveal_strlit("hold_key");
    assert("hold_key"@.len() == 8);
    reveal_strlit("activate_game");
    assert("activate_game"@.len() == 13);
    reveal_strlit("focus_game");
    assert("focus_game"@.len() == 10);
    reveal_strlit("click");
    assert("click"@.len() == 5);
    reveal_strlit("click_template");
    assert("click_template"@.len() == 14);
    reveal_strlit("wait_template");
    assert("wait_template"@.len() == 13);
    reveal_strlit("wait_template_absent");
    assert("wait_template_absent"@.len() == 20);
    reveal_strlit("wait_stable");
    assert("wait_stable"@.len() == 11);
    reveal_strlit("wait_pixels_stable");
    assert("wait_pixels_stable"@.len() == 18);
    reveal_strlit("click_text");
    assert("click_text"@.len() == 10);
    reveal_strlit("wait_text");
    assert("wait_text"@.len() == 9);
    reveal_strlit("paste");
    assert("paste"@.len() == 5);
    reveal_strlit("paste_text");
    assert("paste_text"@.len() == 10);
    reveal_strlit("send_chat");
    assert("send_chat"@.len() == 9);
    reveal_strlit("reply");
    assert("reply"@.len() == 5);
}

proof fn lemma_kind_send_friend_message()
    ensures
        "send_friend_message"@ != "sleep"@,
        "send_friend_message"@ != "wait"@,
        "send_friend_message"@ != "key"@,
        "send_friend_message"@ != "press_key"@,
        "send_friend_message"@ != "hold_key"@,
        "send_friend_message"@ != "activate_game"@,
        "send_friend_message"@ != "focus_game"@,
        "send_friend_message"@ != "click"@,
        "send_friend_message"@ != "click_template"@,
        "send_friend_message"@ != "wait_template"@,
        "send_friend_message"@ != "wait_template_absent"@,
        "send_friend_message"@ != "wait_stable"@,
        "send_friend_message"@ != "wait_pixels_stable"@,
        "send_friend_message"@ != "click_text"@,
        "send_friend_message"@ != "wait_text"@,
        "send_friend_message"@ != "paste"@,
        "send_friend_message"@ != "paste_text"@,
        "send_friend_message"@ != "send_chat"@,
        "send_friend_message"@ != "reply"@,
        "send_friend_message"@ != "send_current_chat"@,
{
    reveal_strlit("send_friend_message");
    assert("send_friend_message"@.len() == 19);
    reveal_strlit("sleep");
    assert("sleep"@.len() == 5);
    reveal_strlit("wait");
    assert("wait"@.len() == 4);
    reveal_strlit("key");
    assert("key"@.len() == 3);
    reveal_strlit("press_key");
    assert("press_key"@.len() == 9);
    reveal_strlit("hold_key");
    assert("hold_key"@.len() == 8);
    reveal_strlit("activate_game");
    assert("activate_game"@.len() == 13);
    reveal_strlit("focus_game");
    assert("focus_game"@.len() == 10);
    reveal_strlit("click");
    assert("click"@.len() == 5);
    reveal_strlit("click_template");
    assert("click_template"@.len() == 14);
    reveal_strlit("wait_template");
    assert("wait_template"@.len() == 13);
    reveal_strlit("wait_template_absent");
    assert("wait_template_absent"@.len() == 20);
    reveal_strlit("wait_stable");
    assert("wait_stable"@.len() == 11);
    reveal_strlit("wait_pixels_stable");
    assert("wait_pixels_stable"@.len() == 18);
    reveal_strlit("click_text");
    assert("click_text"@.len() == 10);
    reveal_strlit("wait_text");
    assert("wait_text"@.len() == 9);
    reveal_strlit("paste");
    assert("paste"@.len() == 5);
    reveal_strlit("paste_text");
    assert("paste_text"@.len() == 10);
    reveal_strlit("send_chat");
    assert("send_chat"@.len() == 9);
    reveal_strlit("reply");
    assert("reply"@.len() == 5);
    reveal_strlit("send_current_chat");
    assert("send_current_chat"@.len() == 17);
}

proof fn lemma_kind_friend_reply()
    ensures
        "friend_reply"@ != "sleep"@,
        "friend_reply"@ != "wait"@,
        "friend_reply"@ != "key"@,
        "friend_reply"@ != "press_key"@,
        "friend_reply"@ != "hold_key"@,
        "friend_reply"@ != "activate_game"@,
        "friend_reply"@ != "focus_game"@,
        "friend_reply"@ != "click"@,
        "friend_reply"@ != "click_template"@,
        "friend_reply"@ != "wait_template"@,
        "friend_reply"@ != "wait_template_absent"@,
        "friend_reply"@ != "wait_stable"@,
        "friend_reply"@ != "wait_pixels_stable"@,
        "friend_reply"@ != "click_text"@,
        "friend_reply"@ != "wait_text"@,
        "friend_reply"@ != "paste"@,
        "friend_reply"@ != "paste_text"@,
        "friend_reply"@ != "send_chat"@,
        "friend_reply"@ != "reply"@,
        "friend_reply"@ != "send_current_chat"@,
        "friend_reply"@ != "send_friend_message"@,
{
    reveal_strlit("friend_reply");
    assert("friend_reply"@.len() == 12);
    reveal_strlit("sleep");
    assert("sleep"@.len() == 5);
    reveal_strlit("wait");
    assert("wait"@.len() == 4);
    reveal_strlit("key");
    assert("key"@.len() == 3);
    reveal_strlit("press_key");
    assert("press_key"@.len() == 9);
    reveal_strlit("hold_key");
    assert("hold_key"@.len() == 8);
    reveal_strlit("activate_game");
    assert("activate_game"@.len() == 13);
    reveal_strlit("focus_game");
    assert("focus_game"@.len() == 10);
    reveal_strlit("click");
    assert("click"@.len() == 5);
    reveal_strlit("click_template");
    assert("click_template"@.len() == 14);
    reveal_strlit("wait_template");
    assert("wait_template"@.len() == 13);
    reveal_strlit("wait_template_absent");
    assert("wait_template_absent"@.len() == 20);
    reveal_strlit("wait_stable");
    assert("wait_stable"@.len() == 11);
    reveal_strlit("wait_pixels_stable");
    assert("wait_pixels_stable"@.len() == 18);
    reveal_strlit("click_text");
    assert("click_text"@.len() == 10);
    reveal_strlit("wait_text");
    assert("wait_text"@.len() == 9);
    reveal_strlit("paste");
    assert("paste"@.len() == 5);
    reveal_strlit("paste_text");
    assert("paste_text"@.len() == 10);
    reveal_strlit("send_chat");
    assert("send_chat"@.len() == 9);
    reveal_strlit("reply");
    assert("reply"@.len() == 5);
    reveal_strlit("send_current_chat");
    assert("send_current_chat"@.len() == 17);
    reveal_strlit("send_friend_message");
    assert("send_friend_message"@.len() == 19);
}

proof fn lemma_kind_invite_user()
    ensures
        "invite_user"@ != "sleep"@,
        "invite_user"@ != "wait"@,
        "invite_user"@ != "key"@,
        "invite_user"@ != "press_key"@,
        "invite_user"@ != "hold_key"@,
        "invite_user"@ != "activate_game"@,
        "invite_user"@ != "focus_game"@,
        "invite_user"@ != "click"@,
        "invite_user"@ != "click_template"@,
        "invite_user"@ != "wait_template"@,
        "invite_user"@ != "wait_template_absent"@,
        "invite_user"@ != "wait_stable"@,
        "invite_user"@ != "wait_pixels_stable"@,
        "invite_user"@ != "click_text"@,
        "invite_user"@ != "wait_text"@,
        "invite_user"@ != "paste"@,
        "invite_user"@ != "paste_text"@,
        "invite_user"@ != "send_chat"@,
        "invite_user"@ != "reply"@,
        "invite_user"@ != "send_current_chat"@,
        "invite_user"@ != "send_friend_message"@,
        "invite_user"@ != "friend_reply"@,
{
    reveal_strlit("invite_user");
    assert("invite_user"@.len() == 11);
    reveal_strlit("sleep");
    assert("sleep"@.len() == 5);
    reveal_strlit("wait");
    assert("wait"@.len() == 4);
    reveal_strlit("key");
    assert("key"@.len() == 3);
    reveal_strlit("press_key");
    assert("press_key"@.len() == 9);
    reveal_strlit("hold_key");
    assert("hold_key"@.len() == 8);
    reveal_strlit("activate_game");
    assert("activate_game"@.len() == 13);
    reveal_strlit("focus_game");
    assert("focus_game"@.len() == 10);
    reveal_strlit("click");
    assert("click"@.len() == 5);
    reveal_strlit("click_template");
    assert("click_template"@.len() == 14);
    reveal_strlit("wait_template");
    assert("wait_template"@.len() == 13);
    reveal_strlit("wait_template_absent");
    assert("wait_template_absent"@.len() == 20);
    reveal_strlit("wait_stable");
    assert("wait_stable"@.len() == 11);
    reveal_strlit("wait_pixels_stable");
    assert("wait_pixels_stable"@.len() == 18);
    reveal_strlit("click_text");
    assert("click_text"@.len() == 10);
    reveal_strlit("wait_text");
    assert("wait_text"@.len() == 9);
    reveal_strlit("paste");
    assert("paste"@.len() == 5);
    reveal_strlit("paste_text");
    assert("paste_text"@.len() == 10);
    reveal_strlit("send_chat");
    assert("send_chat"@.len() == 9);
    reveal_strlit("reply");
    assert("reply"@.len() == 5);
    reveal_strlit("send_current_chat");
    assert("send_current_chat"@.len() == 17);
    reveal_strlit("send_friend_message");
    assert("send_friend_message"@.len() == 19);
    reveal_strlit("friend_reply");
    assert("friend_reply"@.len() == 12);
    assert("invite_user"@[0] != "wait_stable"@[0]);
}

proof fn lemma_kind_invite_current_user()
    ensures
        "invite_current_user"@ != "sleep"@,
        "invite_current_user"@ != "wait"@,
        "invite_current_user"@ != "key"@,
        "invite_current_user"@ != "press_key"@,
        "invite_current_user"@ != "hold_key"@,
        "invite_current_user"@ != "activate_game"@,
        "invite_current_user"@ != "focus_game"@,
        "invite_current_user"@ != "click"@,
        "invite_current_user"@ != "click_template"@,
        "invite_current_user"@ != "wait_template"@,
        "invite_current_user"@ != "wait_template_absent"@,
        "invite_current_user"@ != "wait_stable"@,
        "invite_current_user"@ != "wait_pixels_stable"@,
        "invite_current_user"@ != "click_text"@,
        "invite_current_user"@ != "wait_text"@,
        "invite_current_user"@ != "paste"@,
        "invite_current_user"@ != "paste_text"@,
        "invite_current_user"@ != "send_chat"@,
        "invite_current_user"@ != "reply"@,
        "invite_current_user"@ != "send_current_chat"@,
        "invite_current_user"@ != "send_friend_message"@,
        "invite_current_user"@ != "friend_reply"@,
        "invite_current_user"@ != "invite_user"@,
{
    reveal_strlit("invite_current_user");
    assert("invite_current_user"@.len() == 19);
    reveal_strlit("sleep");
    assert("sleep"@.len() == 5);
    reveal_strlit("wait");
    assert("wait"@.len() == 4);
    reveal_strlit("key");
    assert("key"@.len() == 3);
    reveal_strlit("press_key");
    assert("press_key"@.len() == 9);
    reveal_strlit("hold_key");
    assert("hold_key"@.len() == 8);
    reveal_strlit("activate_game");
    assert("activate_game"@.len() == 13);
    reveal_strlit("focus_game");
    assert("focus_game"@.len() == 10);
    reveal_strlit("click");
    assert("click"@.len() == 5);
    reveal_strlit("click_template");
    assert("click_template"@.len() == 14);
    reveal_strlit("wait_template");
    assert("wait_template"@.len() == 13);
    reveal_strlit("wait_template_absent");
    assert("wait_template_absent"@.len() == 20);
    reveal_strlit("wait_stable");
    assert("wait_stable"@.len() == 11);
    reveal_strlit("wait_pixels_stable");
    assert("wait_pixels_stable"@.len() == 18);
    reveal_strlit("click_text");
    assert("click_text"@.len() == 10);
    reveal_strlit("wait_text");
    assert("wait_text"@.len() == 9);
    reveal_strlit("paste");
    assert("paste"@.len() == 5);
    reveal_strlit("paste_text");
    assert("paste_text"@.len() == 10);
    reveal_strlit("send_chat");
    assert("send_chat"@.len() == 9);
    reveal_strlit("reply");
    assert("reply"@.len() == 5);
    reveal_strlit("send_current_chat");
    assert("send_current_chat"@.len() == 17);
    reveal_strlit("send_friend_message");
    assert("send_friend_message"@.len() == 19);
    reveal_strlit("friend_reply");
    assert("friend_reply"@.len() == 12);
    reveal_strlit("invite_user");
    assert("invite_user"@.len() == 11);
    assert("invite_current_user"@[0] != "send_friend_message"@[0]);
}

proof fn lemma_kind_return_primary()
    ensures
        "return_primary"@ != "sleep"@,
        "return_primary"@ != "wait"@,
        "return_primary"@ != "key"@,
        "return_primary"@ != "press_key"@,
        "return_primary"@ != "hold_key"@,
        "return_primary"@ != "activate_game"@,
        "return_primary"@ != "focus_game"@,
        "return_primary"@ != "click"@,
        "return_primary"@ != "click_template"@,
        "return_primary"@ != "wait_template"@,
        "return_primary"@ != "wait_template_absent"@,
        "return_primary"@ != "wait_stable"@,
        "return_primary"@ != "wait_pixels_stable"@,
        "return_primary"@ != "click_text"@,
        "return_primary"@ != "wait_text"@,
        "return_primary"@ != "paste"@,
        "return_primary"@ != "paste_text"@,
        "return_primary"@ != "send_chat"@,
        "return_primary"@ != "reply"@,
        "return_primary"@ != "send_current_chat"@,
        "return_primary"@ != "send_friend_message"@,
        "return_primary"@ != "friend_reply"@,
        "return_primary"@ != "invite_user"@,
        "return_primary"@ != "invite_current_user"@,
{
    reveal_strlit("return_primary");
    assert("return_primary"@.len() == 14);
    reveal_strlit("sleep");
    assert("sleep"@.len() == 5);
    reveal_strlit("wait");
    assert("wait"@.len() == 4);
    reveal_strlit("key");
    assert("key"@.len() == 3);
    reveal_strlit("press_key");
    assert("press_key"@.len() == 9);
    reveal_strlit("hold_key");
    assert("hold_key"@.len() == 8);
    reveal_strlit("activate_game");
    assert("activate_game"@.len() == 13);
    reveal_strlit("focus_game");
    assert("focus_game"@.len() == 10);
    reveal_strlit("click");
    assert("click"@.len() == 5);
    reveal_strlit("click_template");
    assert("click_template"@.len() == 14);
    reveal_strlit("wait_template");
    assert("wait_template"@.len() == 13);
    reveal_strlit("wait_template_absent");
    assert("wait_template_absent"@.len() == 20);
    reveal_strlit("wait_stable");
    assert("wait_stable"@.len() == 11);
    reveal_strlit("wait_pixels_stable");
    assert("wait_pixels_stable"@.len() == 18);
    reveal_strlit("click_text");
    assert("click_text"@.len() == 10);
    reveal_strlit("wait_text");
    assert("wait_text"@.len() == 9);
    reveal_strlit("paste");
    assert("paste"@.len() == 5);
    reveal_strlit("paste_text");
    assert("paste_text"@.len() == 10);
    reveal_strlit("send_chat");
    assert("send_chat"@.len() == 9);
    reveal_strlit("reply");
    assert("reply"@.len() == 5);
    reveal_strlit("send_current_chat");
    assert("send_current_chat"@.len() == 17);
    reveal_strlit("send_friend_message");
    assert("send_friend_message"@.len() == 19);
    reveal_strlit("friend_reply");
    assert("friend_reply"@.len() == 12);
    reveal_strlit("invite_user");
    assert("invite_user"@.len() == 11);
    reveal_strlit("invite_current_user");
    assert("invite_current_user"@.len() == 19);
    assert("return_primary"@[0] != "click_template"@[0]);
}

proof fn lemma_kind_ensure_primary()
    ensures
        "ensure_primary"@ != "sleep"@,
        "ensure_primary"@ != "wait"@,
        "ensure_primary"@ != "key"@,
        "ensure_primary"@ != "press_key"@,
        "ensure_primary"@ != "hold_key"@,
        "ensure_primary"@ != "activate_game"@,
        "ensure_primary"@ != "focus_game"@,
        "ensure_primary"@ != "click"@,
        "ensure_primary"@ != "click_template"@,
        "ensure_primary"@ != "wait_template"@,
        "ensure_primary"@ != "wait_template_absent"@,
        "ensure_primary"@ != "wait_stable"@,
        "ensure_primary"@ != "wait_pixels_stable"@,
        "ensure_primary"@ != "click_text"@,
        "ensure_primary"@ != "wait_text"@,
        "ensure_primary"@ != "paste"@,
        "ensure_primary"@ != "paste_text"@,
        "ensure_primary"@ != "send_chat"@,
        "ensure_primary"@ != "reply"@,
        "ensure_primary"@ != "send_current_chat"@,
        "ensure_primary"@ != "send_friend_message"@,
        "ensure_primary"@ != "friend_reply"@,
        "ensure_primary"@ != "invite_user"@,
        "ensure_primary"@ != "invite_current_user"@,
        "ensure_primary"@ != "return_primary"@,
{
    reveal_strlit("ensure_primary");
    assert("ensure_primary"@.len() == 14);
    reveal_strlit("sleep");
    assert("sleep"@.len() == 5);
    reveal_strlit("wait");
    assert("wait"@.len() == 4);
    reveal_strlit("key");
    assert("key"@.len() == 3);
    reveal_strlit("press_key");
    assert("press_key"@.len() == 9);
    reveal_strlit("hold_key");
    assert("hold_key"@.len() == 8);
    reveal_strlit("activate_game");
    assert("activate_game"@.len() == 13);
    reveal_strlit("focus_game");
    assert("focus_game"@.len() == 10);
    reveal_strlit("click");
    assert("click"@.len() == 5);
    reveal_strlit("click_template");
    assert("click_template"@.len() == 14);
    reveal_strlit("wait_template");
    assert("wait_template"@.len() == 13);
    reveal_strlit("wait_template_absent");
    assert("wait_template_absent"@.len() == 20);
    reveal_strlit("wait_stable");
    assert("wait_stable"@.len() == 11);
    reveal_strlit("wait_pixels_stable");
    assert("wait_pixels_stable"@.len() == 18);
    reveal_strlit("click_text");
    assert("click_text"@.len() == 10);
    reveal_strlit("wait_text");
    assert("wait_text"@.len() == 9);
    reveal_strlit("paste");
    assert("paste"@.len() == 5);
    reveal_strlit("paste_text");
    assert("paste_text"@.len() == 10);
    reveal_strlit("send_chat");
    assert("send_chat"@.len() == 9);
    reveal_strlit("reply");
    assert("reply"@.len() == 5);
    reveal_strlit("send_current_chat");
    assert("send_current_chat"@.len() == 17);
    reveal_strlit("send_friend_message");
    assert("send_friend_message"@.len() == 19);
    reveal_strlit("friend_reply");
    assert("friend_reply"@.len() == 12);
    reveal_strlit("invite_user");
    assert("invite_user"@.len() == 11);
    reveal_strlit("invite_current_user");
    assert("invite_current_user"@.len() == 19);
    reveal_strlit("return_primary");
    assert("return_primary"@.len() == 14);
    assert("ensure_primary"@[0] != "click_template"@[0]);
    assert("ensure_primary"@[0] != "return_primary"@[0]);
}

proof fn lemma_kind_ensure_current_hall()
    ensures
        "ensure_current_hall"@ != "sleep"@,
        "ensure_current_hall"@ != "wait"@,
        "ensure_current_hall"@ != "key"@,
        "ensure_current_hall"@ != "press_key"@,
        "ensure_current_hall"@ != "hold_key"@,
        "ensure_current_hall"@ != "activate_game"@,
        "ensure_current_hall"@ != "focus_game"@,
        "ensure_current_hall"@ != "click"@,
        "ensure_current_hall"@ != "click_template"@,
        "ensure_current_hall"@ != "wait_template"@,
        "ensure_current_hall"@ != "wait_template_absent"@,
        "ensure_current_hall"@ != "wait_stable"@,
        "ensure_current_hall"@ != "wait_pixels_stable"@,
        "ensure_current_hall"@ != "click_text"@,
        "ensure_current_hall"@ != "wait_text"@,
        "ensure_current_hall"@ != "paste"@,
        "ensure_current_hall"@ != "paste_text"@,
        "ensure_current_hall"@ != "send_chat"@,
        "ensure_current_hall"@ != "reply"@,
        "ensure_current_hall"@ != "send_current_chat"@,
        "ensure_current_hall"@ != "send_friend_message"@,
        "ensure_current_hall"@ != "friend_reply"@,
        "ensure_current_hall"@ != "invite_user"@,
        "ensure_current_hall"@ != "invite_current_user"@,
        "ensure_current_hall"@ != "return_primary"@,
        "ensure_current_hall"@ != "ensure_primary"@,
{
    reveal_strlit("ensure_current_hall");
    assert("ensure_current_hall"@.len() == 19);
    reveal_strlit("sleep");
    assert("sleep"@.len() == 5);
    reveal_strlit("wait");
    assert("wait"@.len() == 4);
    reveal_strlit("key");
    assert("key"@.len() == 3);
    reveal_strlit("press_key");
    assert("press_key"@.len() == 9);
    reveal_strlit("hold_key");
    assert("hold_key"@.len() == 8);
    reveal_strlit("activate_game");
    assert("activate_game"@.len() == 13);
    reveal_strlit("focus_game");
    assert("focus_game"@.len() == 10);
    reveal_strlit("click");
    assert("click"@.len() == 5);
    reveal_strlit("click_template");
    assert("click_template"@.len() == 14);
    reveal_strlit("wait_template");
    assert("wait_template"@.len() == 13);
    reveal_strlit("wait_template_absent");
    assert("wait_template_absent"@.len() == 20);
    reveal_strlit("wait_stable");
    assert("wait_stable"@.len() == 11);
    reveal_strlit("wait_pixels_stable");
    assert("wait_pixels_stable"@.len() == 18);
    reveal_strlit("click_text");
    assert("click_text"@.len() == 10);
    reveal_strlit("wait_text");
    assert("wait_text"@.len() == 9);
    reveal_strlit("paste");
    assert("paste"@.len() == 5);
    reveal_strlit("paste_text");
    assert("paste_text"@.len() == 10);
    reveal_strlit("send_chat");
    assert("send_chat"@.len() == 9);
    reveal_strlit("reply");
    assert("reply"@.len() == 5);
    reveal_strlit("send_current_chat");
    assert("send_current_chat"@.len() == 17);
    reveal_strlit("send_friend_message");
    assert("send_friend_message"@.len() == 19);
    reveal_strlit("friend_reply");
    assert("friend_reply"@.len() == 12);
    reveal_strlit("invite_user");
    assert("invite_user"@.len() == 11);
    reveal_strlit("invite_current_user");
    assert("invite_current_user"@.len() == 19);
    reveal_strlit("return_primary");
    assert("return_primary"@.len() == 14);
    reveal_strlit("ensure_primary");
    assert("ensure_primary"@.len() == 14);
    assert("ensure_current_hall"@[0] != "send_friend_message"@[0]);
    assert("ensure_current_hall"@[0] != "invite_current_user"@[0]);
}

/// An invitation goes to whom the step names, whoever called the workflow; only
/// where it names nobody is the caller invited.
pub proof fn law_invite_target(
    config: CustomWorkflowConfig,
    defaults: WorkflowDefaults,
    step: CustomWorkflowStep,
    call: InvocationView,
    name: Seq<char>,
)
    requires
        trimmed(step.step_type@) == "invite_user"@ || trimmed(step.step_type@)
            == "invite_current_user"@,
    ensures
        plainly_says(step.target, name) ==> step_operation(config, defaults, step, call) == Ok::<
            OperationView,
            Seq<char>,
        >(OperationView::InviteUser { target: name }),
        says_nothing(step.target) && trimmed(call.username).len() > 0 ==> step_operation(
            config,
            defaults,
            step,
            call,
        ) == Ok::<OperationView, Seq<char>>(
            OperationView::InviteUser { target: trimmed(call.username) },
        ),
        says_nothing(step.target) && trimmed(call.username).len() == 0 ==> step_operation(
            config,
            defaults,
            step,
            call,
        ) is Err,
{
    lemma_kind_invite_user();
    lemma_kind_invite_current_user();
    if plainly_says(step.target, name) {
        law_plain_text_stays(name, call);
    }
}

/// A message to a friend goes to whom the step names, whoever called the workflow,
/// and only where it names nobody to the caller. It says what the step says: its
/// message, or else its text.
pub proof fn law_friend_message(
    config: CustomWorkflowConfig,
    defaults: WorkflowDefaults,
    step: CustomWorkflowStep,
    call: InvocationView,
    name: Seq<char>,
    message: Seq<char>,
)
    requires
        trimmed(step.step_type@) == "send_friend_message"@ || trimmed(step.step_type@)
            == "friend_reply"@,
        plainly_says(step.message, message) || (says_nothing(step.message) && plainly_says(
            step.text,
            message,
        )),
    ensures
        plainly_says(step.target, name) ==> step_operation(config, defaults, step, call) == Ok::<
            OperationView,
            Seq<char>,
        >(OperationView::SendFriendMessage { target: name, message }),
        says_nothing(step.target) && trimmed(call.username).len() > 0 ==> step_operation(
            config,
            defaults,
            step,
            call,
        ) == Ok::<OperationView, Seq<char>>(
            OperationView::SendFriendMessage { target: trimmed(call.username), message },
        ),
{
    lemma_kind_send_friend_message();
    lemma_kind_friend_reply();
    law_plain_text_stays(message, call);
    if plainly_says(step.target, name) {
        law_plain_text_stays(name, call);
    }
}

/// Whom a step is for may be put together from the call: where the names in it stand
/// for something, the invitation and the message go to that.
pub proof fn law_target_is_filled_in(
    config: CustomWorkflowConfig,
    defaults: WorkflowDefaults,
    step: CustomWorkflowStep,
    call: InvocationView,
)
    requires
        !says_nothing(step.target),
        step_operation(config, defaults, step, call) is Ok,
    ensures
        step_operation(config, defaults, step, call)->Ok_0 matches OperationView::InviteUser {
            target,
        } ==> target == rendered(trimmed(step.target->0@), call),
        step_operation(config, defaults, step, call)->Ok_0
            matches OperationView::SendFriendMessage { target, .. } ==> target == rendered(
            trimmed(step.target->0@),
            call,
        ),
{
}

/// A message to the hall, or to the conversation that is open, says what the step
/// says: its message, or else its text. A step that says nothing is refused.
pub proof fn law_chat_message(
    config: CustomWorkflowConfig,
    defaults: WorkflowDefaults,
    step: CustomWorkflowStep,
    call: InvocationView,
    message: Seq<char>,
)
    requires
        plainly_says(step.message, message) || (says_nothing(step.message) && plainly_says(
            step.text,
            message,
        )),
    ensures
        trimmed(step.step_type@) == "send_chat"@ || trimmed(step.step_type@) == "reply"@
            ==> step_operation(config, defaults, step, call) == Ok::<OperationView, Seq<char>>(
            OperationView::SendHall { message },
        ),
        trimmed(step.step_type@) == "send_current_chat"@ ==> step_operation(
            config,
            defaults,
            step,
            call,
        ) == Ok::<OperationView, Seq<char>>(OperationView::SendCurrentChat { message }),
{
    lemma_kind_send_chat();
    lemma_kind_reply();
    lemma_kind_send_current_chat();
    law_plain_text_stays(message, call);
}

/// A text is pasted, waited for or clicked as the step gives it: its text, or else
/// its message. The step's own times and region hold; where it has none, the
/// defaults do. The screen is never looked at more often than every 50
/// milliseconds.
pub proof fn law_text_steps(
    config: CustomWorkflowConfig,
    defaults: WorkflowDefaults,
    step: CustomWorkflowStep,
    call: InvocationView,
    text: Seq<char>,
)
    requires
        plainly_says(step.text, text) || (says_nothing(step.text) && plainly_says(
            step.message,
            text,
        )),
    ensures
        trimmed(step.step_type@) == "paste"@ || trimmed(step.step_type@) == "paste_text"@
            ==> step_operation(config, defaults, step, call) == Ok::<OperationView, Seq<char>>(
            OperationView::PasteText { text, clipboard_hold_ms: defaults.clipboard_hold_ms },
        ),
        trimmed(step.step_type@) == "wait_text"@ && step.region is Some ==> {
            &&& step_operation(config, defaults, step, call) matches Ok(OperationView::WaitText {
                expected,
                region,
                timeout_ms,
                poll_ms,
            })
            &&& expected == text
            &&& same_region(step, region)
            &&& own_or(step.timeout_ms, defaults.default_timeout_ms, timeout_ms)
            &&& polled(step.poll_ms, defaults.default_poll_ms, poll_ms)
        },
        trimmed(step.step_type@) == "click_text"@ && step.region is Some ==> {
            &&& step_operation(config, defaults, step, call) matches Ok(OperationView::ClickText {
                expected,
                region,
                timeout_ms,
                poll_ms,
                offset,
            })
            &&& expected == text
            &&& same_region(step, region)
            &&& own_or(step.timeout_ms, defaults.default_timeout_ms, timeout_ms)
            &&& polled(step.poll_ms, defaults.default_poll_ms, poll_ms)
            &&& clicked_beside(step, offset)
        },
        (trimmed(step.step_type@) == "wait_text"@ || trimmed(step.step_type@) == "click_text"@)
            && step.region is None ==> step_operation(config, defaults, step, call) is Err,
{
    lemma_kind_paste();
    lemma_kind_paste_text();
    lemma_kind_wait_text();
    lemma_kind_click_text();
    law_plain_text_stays(text, call);
}

/// Whether a region is the one of a step.
pub open spec fn same_region(step: CustomWorkflowStep, region: WorkflowRect) -> bool {
    &&& step.region is Some
    &&& region.x == step.region->0.x
    &&& region.y == step.region->0.y
    &&& region.width == step.region->0.width
    &&& region.height == step.region->0.height
}

/// Whether a number is a step's own, or the default where the step has none.
pub open spec fn own_or(own: Option<u64>, default: u64, number: u64) -> bool {
    &&& own is Some ==> number == own->0
    &&& own is None ==> number == default
}

/// Whether a screen is looked at as often as a step says, or else as by default, but
/// no more often than every 50 milliseconds.
pub open spec fn polled(own: Option<u64>, default: u64, poll_ms: u64) -> bool {
    &&& poll_ms >= 50
    &&& own is Some && own->0 >= 50 ==> poll_ms == own->0
    &&& own is Some && own->0 < 50 ==> poll_ms == 50
    &&& own is None && default >= 50 ==> poll_ms == default
    &&& own is None && default < 50 ==> poll_ms == 50
}

/// Whether a click goes beside what was found by as much as a step says, and right
/// on it where it says nothing.
pub open spec fn clicked_beside(step: CustomWorkflowStep, offset: WorkflowPoint) -> bool {
    &&& step.click_offset is Some ==> offset.x == step.click_offset->0.x && offset.y
        == step.click_offset->0.y
    &&& step.click_offset is None ==> offset.x == 0 && offset.y == 0
}

/// A step that waits waits as long as it says, or else as long as its limit says, or
/// else as long as by default.
pub proof fn law_wait_step(
    config: CustomWorkflowConfig,
    defaults: WorkflowDefaults,
    step: CustomWorkflowStep,
    call: InvocationView,
)
    requires
        trimmed(step.step_type@) == "sleep"@ || trimmed(step.step_type@) == "wait"@,
    ensures
        step_operation(config, defaults, step, call) matches Ok(OperationView::Wait { duration_ms })
            && {
            &&& step.wait_ms is Some ==> duration_ms == step.wait_ms->0
            &&& step.wait_ms is None && step.timeout_ms is Some ==> duration_ms
                == step.timeout_ms->0
            &&& step.wait_ms is None && step.timeout_ms is None ==> duration_ms
                == defaults.default_step_wait_ms
        },
        pause_after(config, defaults, step).len() == 0,
{
}

/// A key is pressed that the step names; a step that names none is refused. A key is
/// held as many seconds as the argument says that the step counts on, the first one
/// where it does not say, and one second where the call has no such argument; a time
/// of nothing or beyond the limit is refused.
pub proof fn law_key_steps(
    config: CustomWorkflowConfig,
    defaults: WorkflowDefaults,
    step: CustomWorkflowStep,
    call: InvocationView,
    key: Seq<char>,
    argument: int,
    seconds: nat,
)
    requires
        step.hold_seconds_arg is Some ==> argument == step.hold_seconds_arg->0,
        step.hold_seconds_arg is None ==> argument == 1,
    ensures
        (trimmed(step.step_type@) == "key"@ || trimmed(step.step_type@) == "press_key"@)
            && plainly_says(step.key, key) ==> step_operation(config, defaults, step, call) == Ok::<
            OperationView,
            Seq<char>,
        >(OperationView::PressKey { key }),
        (trimmed(step.step_type@) == "key"@ || trimmed(step.step_type@) == "press_key"@
            || trimmed(step.step_type@) == "hold_key"@) && says_nothing(step.key)
            ==> step_operation(config, defaults, step, call) is Err,
        trimmed(step.step_type@) == "hold_key"@ && plainly_says(step.key, key)
            && config.max_hold_key_seconds > 0 && 1 <= argument && argument > words(
            call.command.args,
        ).len() ==> step_operation(config, defaults, step, call) == Ok::<OperationView, Seq<char>>(
            OperationView::HoldKey { key, duration_seconds: 1 },
        ),
        trimmed(step.step_type@) == "hold_key"@ && plainly_says(step.key, key) && 1 <= argument
            <= words(call.command.args).len() && words(call.command.args)[argument - 1] == decimal(
            seconds,
        ) && 1 <= seconds <= config.max_hold_key_seconds ==> step_operation(
            config,
            defaults,
            step,
            call,
        ) == Ok::<OperationView, Seq<char>>(
            OperationView::HoldKey { key, duration_seconds: seconds as u64 },
        ),
        trimmed(step.step_type@) == "hold_key"@ && 1 <= argument <= words(call.command.args).len()
            && words(call.command.args)[argument - 1] == decimal(seconds) && (seconds == 0
            || seconds > config.max_hold_key_seconds) ==> step_operation(
            config,
            defaults,
            step,
            call,
        ) is Err,
{
    lemma_kind_key();
    lemma_kind_press_key();
    lemma_kind_hold_key();
    lemma_decimal_digits(seconds);
    law_plain_text_stays(Seq::empty(), call);
    if plainly_says(step.key, key) {
        law_plain_text_stays(key, call);
        lemma_trimmed_again(step.key->0@);
    } else if says_nothing(step.key) {
        lemma_nothing_rendered(step, call);
    }
}

/// What is trimmed and not empty is not blank.
proof fn lemma_trimmed_again(text: Seq<char>)
    requires
        trimmed(text).len() > 0,
    ensures
        !blank(trimmed(text)),
{
    lemma_trimmed_ends(text);
    lemma_trim_nothing(trimmed(text));
}

proof fn lemma_trimmed_ends(text: Seq<char>)
    requires
        trimmed(text).len() > 0,
    ensures
        !whitespace(trimmed(text)[0]),
        !whitespace(trimmed(text).last()),
{
    lemma_start_is_trimmed(text);
    lemma_end_is_trimmed(trimmed_start(text));
}

proof fn lemma_start_is_trimmed(text: Seq<char>)
    ensures
        trimmed_start(text).len() > 0 ==> !whitespace(
            trimmed_start(text)[0],
        ),
    decreases text.len(),
{
    if text.len() > 0 && whitespace(text[0]) {
        lemma_start_is_trimmed(text.drop_first());
    }
}

proof fn lemma_end_is_trimmed(text: Seq<char>)
    ensures
        trimmed_end(text).len() > 0 ==> !whitespace(
            trimmed_end(text).last(),
        ) && trimmed_end(text)[0] == text[0],
    decreases text.len(),
{
    if text.len() > 0 && whitespace(text.last()) {
        lemma_end_is_trimmed(text.drop_last());
    }
}

proof fn lemma_nothing_rendered(step: CustomWorkflowStep, call: InvocationView)
    requires
        says_nothing(step.key),
    ensures
        blank(rendered(text_or_empty(step.key), call)),
{
    let none = text_or_empty(step.key);
    assert(none =~= Seq::empty());
    law_plain_text_stays(none, call);
}

/// The game is activated or brought to the front with the default pause; a click goes
/// to the point of the step, and a step without one is refused; the assistant goes
/// to the main page, or to the hall that it is in, as the step asks.
pub proof fn law_plain_steps(
    config: CustomWorkflowConfig,
    defaults: WorkflowDefaults,
    step: CustomWorkflowStep,
    call: InvocationView,
)
    ensures
        trimmed(step.step_type@) == "activate_game"@ ==> step_operation(
            config,
            defaults,
            step,
            call,
        ) == Ok::<OperationView, Seq<char>>(
            OperationView::ActivateGame { after_activate_ms: defaults.after_activate_ms },
        ),
        trimmed(step.step_type@) == "focus_game"@ ==> step_operation(config, defaults, step, call)
            == Ok::<OperationView, Seq<char>>(
            OperationView::FocusGame { after_activate_ms: defaults.after_activate_ms },
        ),
        trimmed(step.step_type@) == "click"@ && step.point is Some ==> step_operation(
            config,
            defaults,
            step,
            call,
        ) == Ok::<OperationView, Seq<char>>(
            OperationView::ClickPoint {
                point: WorkflowPoint { x: step.point->0.x, y: step.point->0.y },
            },
        ),
        trimmed(step.step_type@) == "click"@ && step.point is None ==> step_operation(
            config,
            defaults,
            step,
            call,
        ) is Err,
        trimmed(step.step_type@) == "return_primary"@ || trimmed(step.step_type@)
            == "ensure_primary"@ ==> step_operation(config, defaults, step, call) == Ok::<
            OperationView,
            Seq<char>,
        >(OperationView::EnsureResidency { target: WorkflowResidency::Primary }),
        trimmed(step.step_type@) == "ensure_current_hall"@ ==> step_operation(
            config,
            defaults,
            step,
            call,
        ) == Ok::<OperationView, Seq<char>>(
            OperationView::EnsureResidency { target: WorkflowResidency::SecondaryCurrentHall },
        ),
{
    lemma_kind_activate_game();
    lemma_kind_focus_game();
    lemma_kind_click();
    lemma_kind_return_primary();
    lemma_kind_ensure_primary();
    lemma_kind_ensure_current_hall();
}

/// An image is looked for under the path that the configuration gives its name, or
/// under the name itself where it gives none; in the region of the step, which has to
/// have one; with the step's own threshold and times, or else the defaults. Where the
/// step waits until the image is gone, the screen has to be still afterwards if the
/// step or else the configuration says so, and for no shorter than it is looked at.
pub proof fn law_image_steps(
    config: CustomWorkflowConfig,
    defaults: WorkflowDefaults,
    step: CustomWorkflowStep,
    call: InvocationView,
    name: Seq<char>,
    path: Seq<char>,
)
    requires
        plainly_says(step.template, name),
        template_named(config.templates@, name) == Some(path) || (template_named(
            config.templates@,
            name,
        ) is None && path == name),
    ensures
        trimmed(step.step_type@) == "click_template"@ && step.region is Some ==> {
            &&& step_operation(config, defaults, step, call) matches Ok(
                OperationView::ClickTemplate {
                    template,
                    region,
                    threshold,
                    timeout_ms,
                    poll_ms,
                    offset,
                },
            )
            &&& template == path
            &&& same_region(step, region)
            &&& step.threshold is Some ==> threshold == step.threshold->0
            &&& step.threshold is None ==> threshold == config.default_threshold
            &&& own_or(step.timeout_ms, defaults.default_timeout_ms, timeout_ms)
            &&& polled(step.poll_ms, defaults.default_poll_ms, poll_ms)
            &&& clicked_beside(step, offset)
        },
        trimmed(step.step_type@) == "wait_template"@ && step.region is Some ==> {
            &&& step_operation(config, defaults, step, call) matches Ok(
                OperationView::WaitTemplate { template, region, threshold, timeout_ms, poll_ms },
            )
            &&& template == path
            &&& same_region(step, region)
            &&& step.threshold is Some ==> threshold == step.threshold->0
            &&& step.threshold is None ==> threshold == config.default_threshold
            &&& own_or(step.timeout_ms, defaults.default_timeout_ms, timeout_ms)
            &&& polled(step.poll_ms, defaults.default_poll_ms, poll_ms)
        },
        trimmed(step.step_type@) == "wait_template_absent"@ && step.region is Some ==> {
            &&& step_operation(config, defaults, step, call) matches Ok(
                OperationView::WaitTemplateAbsent {
                    template,
                    region,
                    threshold,
                    timeout_ms,
                    poll_ms,
                    stability,
                },
            )
            &&& template == path
            &&& same_region(step, region)
            &&& step.threshold is Some ==> threshold == step.threshold->0
            &&& step.threshold is None ==> threshold == config.default_threshold
            &&& own_or(step.timeout_ms, defaults.default_timeout_ms, timeout_ms)
            &&& polled(step.poll_ms, defaults.default_poll_ms, poll_ms)
            &&& step.stable_after_absent is Some ==> stability is Some
                == step.stable_after_absent->0
            &&& step.stable_after_absent is None ==> stability is Some
                == config.wait_template_absent_stable_default
            &&& stability is Some ==> stability->0.timeout_ms >= poll_ms
            &&& stability is Some && step.wait_ms is Some && step.wait_ms->0 >= poll_ms
                ==> stability->0.timeout_ms == step.wait_ms->0
            &&& stability is Some && step.wait_ms is None && defaults.default_step_wait_ms
                >= poll_ms ==> stability->0.timeout_ms == defaults.default_step_wait_ms
            &&& stability is Some ==> stability->0.mean_threshold
                == defaults.stability_mean_threshold && stability->0.changed_ratio_threshold
                == defaults.stability_changed_ratio_threshold
        },
        (trimmed(step.step_type@) == "click_template"@ || trimmed(step.step_type@)
            == "wait_template"@ || trimmed(step.step_type@) == "wait_template_absent"@)
            && step.region is None ==> step_operation(config, defaults, step, call) is Err,
{
    lemma_kind_click_template();
    lemma_kind_wait_template();
    lemma_kind_wait_template_absent();
    law_plain_text_stays(name, call);
    lemma_trimmed_ends(step.template->0@);
    lemma_trim_nothing(name);
}

/// A step that waits until the screen is still looks at its region, as long as it
/// says, or else as it pauses, or else as by default.
pub proof fn law_still_steps(
    config: CustomWorkflowConfig,
    defaults: WorkflowDefaults,
    step: CustomWorkflowStep,
    call: InvocationView,
)
    requires
        trimmed(step.step_type@) == "wait_stable"@ || trimmed(step.step_type@)
            == "wait_pixels_stable"@,
    ensures
        step.region is None ==> step_operation(config, defaults, step, call) is Err,
        step.region is Some ==> {
            &&& step_operation(config, defaults, step, call) matches Ok(
                OperationView::WaitPixelsStable { region, poll_ms, stability },
            )
            &&& same_region(step, region)
            &&& polled(step.poll_ms, defaults.default_poll_ms, poll_ms)
            &&& step.timeout_ms is Some ==> stability.timeout_ms == step.timeout_ms->0
            &&& step.timeout_ms is None && step.wait_ms is Some ==> stability.timeout_ms
                == step.wait_ms->0
            &&& step.timeout_ms is None && step.wait_ms is None ==> stability.timeout_ms
                == defaults.default_timeout_ms
            &&& stability.mean_threshold == defaults.stability_mean_threshold
            &&& stability.changed_ratio_threshold == defaults.stability_changed_ratio_threshold
        },
        pause_after(config, defaults, step).len() == 0,
{
    lemma_kind_wait_stable();
    lemma_kind_wait_pixels_stable();
}

/// Behind the operation of a step stands a wait: as long as the step says, or else as
/// by default, and none where that is nothing or the step itself waits.
pub proof fn law_pause(
    config: CustomWorkflowConfig,
    defaults: WorkflowDefaults,
    step: CustomWorkflowStep,
    wait_ms: u64,
)
    requires
        step.wait_ms is Some ==> wait_ms == step.wait_ms->0,
        step.wait_ms is None ==> wait_ms == defaults.default_step_wait_ms,
    ensures
        wait_ms == 0 ==> pause_after(config, defaults, step).len() == 0,
        wait_ms > 0 && (trimmed(step.step_type@) == "key"@ || trimmed(step.step_type@)
            == "press_key"@ || trimmed(step.step_type@) == "click"@ || trimmed(step.step_type@)
            == "click_template"@ || trimmed(step.step_type@) == "wait_template"@ || trimmed(
            step.step_type@,
        ) == "click_text"@ || trimmed(step.step_type@) == "wait_text"@ || trimmed(step.step_type@)
            == "paste"@ || trimmed(step.step_type@) == "paste_text"@ || trimmed(step.step_type@)
            == "send_chat"@ || trimmed(step.step_type@) == "reply"@ || trimmed(step.step_type@)
            == "send_current_chat"@ || trimmed(step.step_type@) == "send_friend_message"@
            || trimmed(step.step_type@) == "friend_reply"@ || trimmed(step.step_type@)
            == "invite_user"@ || trimmed(step.step_type@) == "invite_current_user"@ || trimmed(
            step.step_type@,
        ) == "activate_game"@ || trimmed(step.step_type@) == "focus_game"@ || trimmed(
            step.step_type@,
        ) == "return_primary"@ || trimmed(step.step_type@) == "ensure_primary"@ || trimmed(
            step.step_type@,
        ) == "ensure_current_hall"@) ==> pause_after(config, defaults, step) == seq![
            OperationView::Wait { duration_ms: wait_ms },
        ],
        wait_ms > 0 && trimmed(step.step_type@) == "wait_template_absent"@ && (
        step.stable_after_absent == Some(false) || (step.stable_after_absent is None
            && !config.wait_template_absent_stable_default)) ==> pause_after(config, defaults, step)
            == seq![OperationView::Wait { duration_ms: wait_ms }],
        trimmed(step.step_type@) == "wait_template_absent"@ && (step.stable_after_absent == Some(
            true,
        ) || (step.stable_after_absent is None && config.wait_template_absent_stable_default))
            ==> pause_after(config, defaults, step).len() == 0,
{
    reveal_strlit("sleep");
    assert("sleep"@.len() == 5);
    reveal_strlit("wait");
    assert("wait"@.len() == 4);
    reveal_strlit("key");
    assert("key"@.len() == 3);
    reveal_strlit("press_key");
    assert("press_key"@.len() == 9);
    reveal_strlit("hold_key");
    assert("hold_key"@.len() == 8);
    reveal_strlit("activate_game");
    assert("activate_game"@.len() == 13);
    reveal_strlit("focus_game");
    assert("focus_game"@.len() == 10);
    reveal_strlit("click");
    assert("click"@.len() == 5);
    reveal_strlit("click_template");
    assert("click_template"@.len() == 14);
    reveal_strlit("wait_template");
    assert("wait_template"@.len() == 13);
    reveal_strlit("wait_template_absent");
    assert("wait_template_absent"@.len() == 20);
    reveal_strlit("wait_stable");
    assert("wait_stable"@.len() == 11);
    reveal_strlit("wait_pixels_stable");
    assert("wait_pixels_stable"@.len() == 18);
    reveal_strlit("click_text");
    assert("click_text"@.len() == 10);
    reveal_strlit("wait_text");
    assert("wait_text"@.len() == 9);
    reveal_strlit("paste");
    assert("paste"@.len() == 5);
    reveal_strlit("paste_text");
    assert("paste_text"@.len() == 10);
    reveal_strlit("send_chat");
    assert("send_chat"@.len() == 9);
    reveal_strlit("reply");
    assert("reply"@.len() == 5);
    reveal_strlit("send_current_chat");
    assert("send_current_chat"@.len() == 17);
    reveal_strlit("send_friend_message");
    assert("send_friend_message"@.len() == 19);
    reveal_strlit("friend_reply");
    assert("friend_reply"@.len() == 12);
    reveal_strlit("invite_user");
    assert("invite_user"@.len() == 11);
    reveal_strlit("invite_current_user");
    assert("invite_current_user"@.len() == 19);
    reveal_strlit("return_primary");
    assert("return_primary"@.len() == 14);
    reveal_strlit("ensure_primary");
    assert("ensure_primary"@.len() == 14);
    reveal_strlit("ensure_current_hall");
    assert("ensure_current_hall"@.len() == 19);
    assert("click"@[0] != "sleep"@[0]);
    assert("paste"@[0] != "sleep"@[0]);
    assert("reply"@[0] != "sleep"@[0]);
    assert("invite_user"@[0] != "wait_stable"@[0]);
}

// ---------------------------------------------------------------------------
// A whole plan
// ---------------------------------------------------------------------------
/// Where the operation of a step stands in a plan: behind those of all steps before
/// it and the waits behind them.
pub open spec fn place_of_step(
    config: CustomWorkflowConfig,
    defaults: WorkflowDefaults,
    steps: Seq<CustomWorkflowStep>,
    k: int,
) -> int
    decreases k,
{
    if k <= 0 {
        0
    } else {
        place_of_step(config, defaults, steps, k - 1) + 1 + pause_after(
            config,
            defaults,
            steps[k - 1],
        ).len()
    }
}

proof fn lemma_place_of_step(
    config: CustomWorkflowConfig,
    defaults: WorkflowDefaults,
    steps: Seq<CustomWorkflowStep>,
    call: InvocationView,
    n: int,
    k: int,
)
    requires
        0 <= k < n <= steps.len(),
        steps_operations(config, defaults, steps, call, n) is Ok,
    ensures
        ({
            let all = steps_operations(config, defaults, steps, call, n)->Ok_0;
            let at = place_of_step(config, defaults, steps, k);
            let pause = pause_after(config, defaults, steps[k]);
            &&& 0 <= at
            &&& all.len() == place_of_step(config, defaults, steps, n)
            &&& at + 1 + pause.len() <= all.len()
            &&& step_operation(config, defaults, steps[k], call) == Ok::<OperationView, Seq<char>>(
                all[at],
            )
            &&& all.subrange(at + 1, at + 1 + pause.len()) == pause
        }),
    decreases n,
{
    let all = steps_operations(config, defaults, steps, call, n)->Ok_0;
    let before = steps_operations(config, defaults, steps, call, n - 1)->Ok_0;
    let last = pause_after(config, defaults, steps[n - 1]);
    if n - 1 > 0 {
        lemma_place_of_step(config, defaults, steps, call, n - 1, n - 2);
    }
    assert(before.len() == place_of_step(config, defaults, steps, n - 1));
    assert(all.len() == before.len() + 1 + last.len());
    let at = place_of_step(config, defaults, steps, k);
    let pause = pause_after(config, defaults, steps[k]);
    if k < n - 1 {
        lemma_place_of_step(config, defaults, steps, call, n - 1, k);
        assert(all[at] == before[at]);
        assert(all.subrange(at + 1, at + 1 + pause.len()) =~= before.subrange(
            at + 1,
            at + 1 + pause.len(),
        ));
    } else {
        assert(all.subrange(at + 1, at + 1 + pause.len()) =~= pause);
    }
}

/// A plan holds the operations of all steps of the workflow that was called, in
/// their order, each with its wait behind it, and nothing else. It asks before it
/// runs where the workflow says so, and says at its end what the workflow says.
pub proof fn law_plan(
    config: CustomWorkflowConfig,
    defaults: WorkflowDefaults,
    call: InvocationView,
    i: int,
    k: int,
)
    requires
        plan_of(config, defaults, call) is Ok,
        named_workflow(config.workflows@, call.command.workflow) == Some(i),
        0 <= k < config.workflows@[i].steps@.len(),
    ensures
        ({
            let plan = plan_of(config, defaults, call)->Ok_0;
            let workflow = config.workflows@[i];
            let steps = workflow.steps@;
            let at = place_of_step(config, defaults, steps, k);
            let pause = pause_after(config, defaults, steps[k]);
            &&& plan.workflow == call.command.workflow
            &&& 0 <= at
            &&& plan.operations.len() == place_of_step(config, defaults, steps, steps.len() as int)
            &&& at + 1 + pause.len() <= plan.operations.len()
            &&& step_operation(config, defaults, steps[k], call) == Ok::<OperationView, Seq<char>>(
                plan.operations[at],
            )
            &&& plan.operations.subrange(at + 1, at + 1 + pause.len()) == pause
            &&& plan.confirmation is Some == workflow.confirm_before_run
            &&& trimmed(workflow.success_message@).len() == 0 ==> plan.success_message is None
            &&& plainly_says(Some(workflow.success_message), trimmed(workflow.success_message@))
                ==> plan.success_message == Some(trimmed(workflow.success_message@))
        }),
{
    let steps = config.workflows@[i].steps@;
    lemma_place_of_step(config, defaults, steps, call, steps.len() as int, k);
    let success = trimmed(config.workflows@[i].success_message@);
    if plainly_says(Some(config.workflows@[i].success_message), success) {
        law_plain_text_stays(success, call);
    }
}

/// The question before a workflow runs is the one of the workflow, or else tells who
/// asks for what; answers are taken from messages of the types that the workflow
/// names, for as long as it says or else as by default.
pub proof fn law_question(
    config: CustomWorkflowConfig,
    defaults: WorkflowDefaults,
    call: InvocationView,
    i: int,
)
    requires
        plan_of(config, defaults, call) is Ok,
        named_workflow(config.workflows@, call.command.workflow) == Some(i),
        config.workflows@[i].confirm_before_run,
    ensures
        ({
            let workflow = config.workflows@[i];
            let question = plan_of(config, defaults, call)->Ok_0.confirmation->0;
            &&& trimmed(workflow.confirm_message@).len() == 0 ==> question.message == call.username
                + " 请求执行 "@ + call.command.name + ",@确认@跳过"@
            &&& plainly_says(Some(workflow.confirm_message), trimmed(workflow.confirm_message@))
                ==> question.message == trimmed(workflow.confirm_message@)
            &&& question.message_types == string_views(workflow.confirm_message_types@)
            &&& own_or(
                workflow.confirm_timeout_ms,
                defaults.decision_timeout_ms,
                question.timeout_ms,
            )
            &&& polled(workflow.confirm_poll_ms, defaults.decision_poll_ms, question.poll_ms)
        }),
{
    let question = trimmed(config.workflows@[i].confirm_message@);
    if plainly_says(Some(config.workflows@[i].confirm_message), question) {
        law_plain_text_stays(question, call);
    }
}

/// A message whose sender says `@确认` confirms, and one whose sender says `@跳过`
/// declines; what goes on behind the word is neither, and so is anything else that
/// is said.
pub proof fn law_answers(name: Seq<char>, end: char, said: Seq<char>, behind: Seq<char>)
    requires
        name.len() > 0,
        !whitespace(name[0]),
        forall|i: int| 0 <= i < name.len() ==> !name_ends().contains(#[trigger] name[i]),
        name_ends().contains(end),
        said.len() > 0,
        behind.len() > 0 ==> !whitespace(behind.last()),
        !whitespace(said.last()),
        !gaps().contains(said[0]),
    ensures
        said == "@确认"@ && (behind.len() == 0 || behind[0] == '，' || whitespace(behind[0]))
            ==> decision_in(name + seq![end] + said + behind) == Some(
            WorkflowConfirmationDecision::Confirm,
        ),
        said == "@跳过"@ && (behind.len() == 0 || behind[0] == '，' || whitespace(behind[0]))
            ==> decision_in(name + seq![end] + said + behind) == Some(
            WorkflowConfirmationDecision::Skip,
        ),
        said[0] != '@' ==> decision_in(name + seq![end] + said + behind) is None,
{
    let text = name + seq![end] + said + behind;
    reveal_strlit("@确认");
    reveal_strlit("@跳过");
    assert(text[0] == name[0]);
    assert(text.last() == if behind.len() > 0 {
        behind.last()
    } else {
        said.last()
    });
    lemma_trim_nothing(text);
    let n = name.len() as int;
    lemma_first_end(name, end, said + behind);
    assert(name + seq![end] + (said + behind) =~= text);
    assert(text.skip(n + 1) =~= said + behind);
    assert((said + behind)[0] == said[0]);
    assert(without_leading(said + behind, gaps()) == said + behind);
    let spoken = said + behind;
    assert("@确认"@[0] == '@' && "@跳过"@[0] == '@');
    assert("@确认"@[1] == '确' && "@跳过"@[1] == '跳');
    if said == "@确认"@ || said == "@跳过"@ {
        assert(spoken.subrange(0, 3) =~= said);
        assert(spoken.skip(3) =~= behind);
        if said == "@跳过"@ {
            assert(spoken.subrange(0, 3)[1] != "@确认"@[1]);
        }
    }
    if said[0] != '@' {
        assert(occurs_at(spoken, "@确认"@, 0) ==> spoken.subrange(0, 3)[0] == '@');
        assert(occurs_at(spoken, "@跳过"@, 0) ==> spoken.subrange(0, 3)[0] == '@');
    }
}

/// The first end of a name stands behind the name.
proof fn lemma_first_end(name: Seq<char>, end: char, rest: Seq<char>)
    requires
        forall|i: int| 0 <= i < name.len() ==> !name_ends().contains(#[trigger] name[i]),
        name_ends().contains(end),
    ensures
        first_of(name + seq![end] + rest, name_ends()) == Some(name.len() as int),
{
    lemma_first_end_from(name, end, rest, 0);
}

proof fn lemma_first_end_from(name: Seq<char>, end: char, rest: Seq<char>, i: int)
    requires
        forall|k: int| 0 <= k < name.len() ==> !name_ends().contains(#[trigger] name[k]),
        name_ends().contains(end),
        0 <= i <= name.len(),
    ensures
        first_of_from(name + seq![end] + rest, name_ends(), i) == Some(name.len() as int),
    decreases name.len() - i,
{
    let text = name + seq![end] + rest;
    if i == name.len() {
        assert(text[i] == end);
    } else {
        assert(text[i] == name[i]);
        lemma_first_end_from(name, end, rest, i + 1);
    }
}

/// Behind a step that waits stands no wait.
pub proof fn law_no_pause_behind_waiting(
    config: CustomWorkflowConfig,
    defaults: WorkflowDefaults,
    step: CustomWorkflowStep,
)
    requires
        trimmed(step.step_type@) == "sleep"@ || trimmed(step.step_type@) == "wait"@ || trimmed(
            step.step_type@,
        ) == "hold_key"@ || trimmed(step.step_type@) == "wait_stable"@ || trimmed(step.step_type@)
            == "wait_pixels_stable"@,
    ensures
        pause_after(config, defaults, step).len() == 0,
{
}

/// A word that goes on is no answer: behind `@确认` and `@跳过` the message ends, or
/// whitespace, punctuation or a closing bracket follows.
pub proof fn law_no_answer(name: Seq<char>, end: char, word: Seq<char>, behind: Seq<char>)
    requires
        name.len() > 0,
        !whitespace(name[0]),
        forall|i: int| 0 <= i < name.len() ==> !name_ends().contains(#[trigger] name[i]),
        end == '：' || end == ':' || end == ']' || end == '】',
        word == "@确认"@ || word == "@跳过"@,
        behind.len() > 0,
        !whitespace(behind.last()),
        !whitespace(behind[0]),
        !seq!['，', ',', '。', '.', '!', '！', '?', '？', ']', '】'].contains(behind[0]),
    ensures
        decision_in(name + seq![end] + word + behind) is None,
{
    let text = name + seq![end] + word + behind;
    let n = name.len() as int;
    reveal_strlit("@确认");
    reveal_strlit("@跳过");
    let ends = name_ends();
    assert(ends[0] == '：' && ends[1] == ':' && ends[2] == ']' && ends[3] == '】');
    assert(ends.contains(end));
    assert(text[0] == name[0]);
    assert(text.last() == behind.last());
    lemma_trim_nothing(text);
    lemma_first_end(name, end, word + behind);
    assert(name + seq![end] + (word + behind) =~= text);
    let spoken = word + behind;
    assert(text.skip(n + 1) =~= spoken);
    assert("@确认"@[0] == '@' && "@跳过"@[0] == '@');
    assert("@确认"@[1] == '确' && "@跳过"@[1] == '跳');
    assert(spoken[0] == '@');
    assert(spoken[1] == word[1]);
    assert(!gaps().contains('@'));
    assert(without_leading(spoken, gaps()) == spoken);
    assert(spoken.skip(3) =~= behind);
    crate::chat_text::law_boundary(behind[0]);
    assert(spoken.subrange(0, 3)[1] == word[1]);
}

/// Why a key cannot be held: no time is allowed, the place of the time counts from nought,
/// what stands there is no number, or it is none that is allowed.
pub proof fn law_time_of_holding(
    step: CustomWorkflowStep,
    call: InvocationView,
    max_seconds: u64,
    argument: int,
    seconds: nat,
)
    requires
        step.hold_seconds_arg is Some ==> argument == step.hold_seconds_arg->0,
        step.hold_seconds_arg is None ==> argument == 1,
    ensures
        ({
            let argv = words(call.command.args);
            let time = hold_seconds(step, call, max_seconds);
            &&& max_seconds == 0 ==> time == Err::<u64, Seq<char>>(
                "custom_workflows.max_hold_key_seconds 必须大于 0"@,
            )
            &&& max_seconds > 0 && argument == 0 ==> time == Err::<u64, Seq<char>>(
                "hold_seconds_arg 必须从 1 开始"@,
            )
            &&& max_seconds > 0 && 1 <= argument <= argv.len() && !all_digits(argv[argument - 1])
                ==> time == Err::<u64, Seq<char>>(
                "按住按键时长必须是正整数秒，最大 "@ + decimal(max_seconds as nat) + " 秒"@,
            )
            &&& max_seconds > 0 && 1 <= argument <= argv.len() && argv[argument - 1] == decimal(
                seconds,
            ) ==> {
                &&& seconds > u64::MAX ==> time == Err::<u64, Seq<char>>("按住按键时长无效"@)
                &&& seconds == 0 || max_seconds < seconds <= u64::MAX ==> time == Err::<
                    u64,
                    Seq<char>,
                >("按住按键时长必须在 1 到 "@ + decimal(max_seconds as nat) + " 秒之间"@)
                &&& 1 <= seconds <= max_seconds ==> time == Ok::<u64, Seq<char>>(seconds as u64)
            }
        }),
{
    lemma_decimal_digits(seconds);
}

/// What a step lacks is told: each kind of step by its own words.
pub proof fn law_what_a_step_lacks(
    config: CustomWorkflowConfig,
    defaults: WorkflowDefaults,
    step: CustomWorkflowStep,
    call: InvocationView,
)
    ensures
        ({
            let kind = trimmed(step.step_type@);
            let made = step_operation(config, defaults, step, call);
            let silent = says_nothing(step.message) && says_nothing(step.text);
            &&& (kind == "key"@ || kind == "press_key"@) && says_nothing(step.key) ==> made == Err::<
                OperationView,
                Seq<char>,
            >("custom workflow step key is empty"@)
            &&& kind == "hold_key"@ && says_nothing(step.key) ==> made == Err::<
                OperationView,
                Seq<char>,
            >("自定义流程按住按键缺少 key"@)
            &&& kind == "click"@ && step.point is None ==> made == Err::<OperationView, Seq<char>>(
                "custom workflow click step missing point"@,
            )
            &&& (kind == "wait_stable"@ || kind == "wait_pixels_stable"@) && step.region is None
                ==> made == Err::<OperationView, Seq<char>>(
                "custom workflow wait_stable step missing region"@,
            )
            &&& (kind == "click_text"@ || kind == "wait_text"@) && silent ==> made == Err::<
                OperationView,
                Seq<char>,
            >("custom workflow text step missing text"@)
            &&& (kind == "paste"@ || kind == "paste_text"@) && silent ==> made == Err::<
                OperationView,
                Seq<char>,
            >("custom workflow paste step missing text"@)
            &&& (kind == "send_chat"@ || kind == "reply"@) && silent ==> made == Err::<
                OperationView,
                Seq<char>,
            >("custom workflow send_chat step missing message"@)
            &&& kind == "send_current_chat"@ && silent ==> made == Err::<OperationView, Seq<char>>(
                "custom workflow send_current_chat step missing message"@,
            )
            &&& (kind == "send_friend_message"@ || kind == "friend_reply"@) && silent ==> made
                == Err::<OperationView, Seq<char>>(
                "custom workflow send_friend_message step missing message"@,
            )
            &&& (kind == "invite_user"@ || kind == "invite_current_user"@) && says_nothing(
                step.target,
            ) && trimmed(call.username).len() == 0 ==> made == Err::<OperationView, Seq<char>>(
                "custom workflow invite step missing target"@,
            )
            &&& (kind == "click_template"@ || kind == "wait_template"@ || kind
                == "wait_template_absent"@) && says_nothing(step.template) ==> made == Err::<
                OperationView,
                Seq<char>,
            >("custom workflow template is empty"@)
        }),
{
    lemma_kind_key();
    lemma_kind_press_key();
    lemma_kind_hold_key();
    lemma_kind_click();
    lemma_kind_wait_stable();
    lemma_kind_wait_pixels_stable();
    lemma_kind_click_text();
    lemma_kind_wait_text();
    lemma_kind_paste();
    lemma_kind_paste_text();
    lemma_kind_send_chat();
    lemma_kind_reply();
    lemma_kind_send_current_chat();
    lemma_kind_send_friend_message();
    lemma_kind_friend_reply();
    lemma_kind_invite_user();
    lemma_kind_invite_current_user();
    lemma_kind_click_template();
    lemma_kind_wait_template();
    lemma_kind_wait_template_absent();
    let none = Seq::<char>::empty();
    law_plain_text_stays(none, call);
    if says_nothing(step.key) {
        lemma_nothing_rendered(step, call);
    }
    if says_nothing(step.message) {
        assert(text_or_empty(step.message) =~= none);
    }
    if says_nothing(step.text) {
        assert(text_or_empty(step.text) =~= none);
    }
    if says_nothing(step.target) {
        assert(text_or_empty(step.target) =~= none);
    }
    if says_nothing(step.template) {
        assert(text_or_empty(step.template) =~= none);
        assert(trimmed(none) =~= none);
    }
}

/// A message that is for nobody is told as such.
pub proof fn law_message_for_nobody(
    config: CustomWorkflowConfig,
    defaults: WorkflowDefaults,
    step: CustomWorkflowStep,
    call: InvocationView,
    message: Seq<char>,
)
    requires
        trimmed(step.step_type@) == "send_friend_message"@ || trimmed(step.step_type@)
            == "friend_reply"@,
        plainly_says(step.message, message),
        says_nothing(step.target),
        trimmed(call.username).len() == 0,
    ensures
        step_operation(config, defaults, step, call) == Err::<OperationView, Seq<char>>(
            "custom workflow send_friend_message step missing target"@,
        ),
{
    lemma_kind_send_friend_message();
    lemma_kind_friend_reply();
    law_plain_text_stays(message, call);
}

} // verus!
