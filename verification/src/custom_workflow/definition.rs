//! How a workflow is described in the configuration.
use vstd::prelude::*;
use crate::config::checks::PointConfig;
use crate::config::checks::RectConfig;
use crate::config::checks::Single;
use crate::text::str_equal;

verus! {

/// A step of a workflow.
#[derive(Clone, Debug)]
pub struct CustomWorkflowStep {
    pub step_type: String,
    pub template: Option<String>,
    pub region: Option<RectConfig>,
    pub point: Option<PointConfig>,
    pub click_offset: Option<PointConfig>,
    pub key: Option<String>,
    pub target: Option<String>,
    pub text: Option<String>,
    pub message: Option<String>,
    pub threshold: Option<Single>,
    pub timeout_ms: Option<u64>,
    pub poll_ms: Option<u64>,
    pub wait_ms: Option<u64>,
    pub hold_seconds_arg: Option<usize>,
    pub stable_after_absent: Option<bool>,
}

/// A workflow.
#[derive(Clone, Debug)]
pub struct CustomWorkflowDefinition {
    pub enabled: bool,
    pub name: String,
    pub commands: Vec<String>,
    pub allow_args: bool,
    pub message_types: Vec<String>,
    pub confirm_before_run: bool,
    pub confirm_message: String,
    pub confirm_message_types: Vec<String>,
    pub confirm_timeout_ms: Option<u64>,
    pub confirm_poll_ms: Option<u64>,
    pub steps: Vec<CustomWorkflowStep>,
    pub success_message: String,
}

/// All workflows.
#[derive(Clone, Debug)]
pub struct CustomWorkflowConfig {
    pub enabled: bool,
    pub default_threshold: Single,
    pub wait_template_absent_stable_default: bool,
    pub max_hold_key_seconds: u64,
    /// The paths of templates, each under its name; no name stands twice.
    pub templates: Vec<(String, String)>,
    pub workflows: Vec<CustomWorkflowDefinition>,
}

/// The path of a template of a name.
pub open spec fn template_named(templates: Seq<(String, String)>, name: Seq<char>) -> Option<
    Seq<char>,
>
    decreases templates.len(),
{
    if templates.len() == 0 {
        None
    } else if templates[0].0@ == name {
        Some(templates[0].1@)
    } else {
        template_named(templates.drop_first(), name)
    }
}

/// The path of a template of a name.
pub fn find_template(templates: &Vec<(String, String)>, name: &str) -> (r: Option<String>)
    ensures
        match r {
            Some(path) => template_named(templates@, name@) == Some(path@),
            None => template_named(templates@, name@) is None,
        },
{
    let mut i: usize = 0;
    assert(templates@.skip(0) =~= templates@);
    while i < templates.len()
        invariant
            i <= templates@.len(),
            template_named(templates@, name@) == template_named(
                templates@.skip(i as int),
                name@,
            ),
        decreases templates@.len() - i,
    {
        if str_equal(templates[i].0.as_str(), name) {
            return Some(templates[i].1.clone());
        }
        assert(templates@.skip(i as int).drop_first() =~= templates@.skip(i + 1));
        i = i + 1;
    }
    None
}

/// Of the pictures of a name the first is found; one of another name is not.
pub proof fn law_template_is_found(
    entry: (String, String),
    rest: Seq<(String, String)>,
    name: Seq<char>,
)
    ensures
        entry.0@ == name ==> template_named(seq![entry] + rest, name) == Some(entry.1@),
        entry.0@ != name ==> template_named(seq![entry] + rest, name) == template_named(rest, name),
        template_named(Seq::empty(), name) is None,
{
    assert((seq![entry] + rest).drop_first() =~= rest);
}

} // verus!
