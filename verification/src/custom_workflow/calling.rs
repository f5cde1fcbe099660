//! Which workflow a command calls.
use vstd::prelude::*;
use crate::chat_text::{brackets, clean, lemma_gap, lemma_whitespace_apart, lemma_whole_prefix};
use crate::chat_text::closer_chars;
use crate::chat_text::is_command_boundary;
use crate::chat_text::leading_char;
use crate::chat_text::command_identity;
use crate::chat_text::strip_ascii_case_prefix;
use crate::chat_text::strip_exact_prefix;
use crate::chat_text::{
    after_exact_prefix, after_prefix, closers, command_boundary, first_char, identity_of,
};
use crate::command::clean_command;
use crate::command::cleaned_command;
use crate::command::{law_cleaned, plain};
use crate::config::checks::equal_lowered;
use crate::config::checks::is_empty_text;
use crate::config::checks::lowered;
use crate::config::checks::to_lowered;
use crate::config::live::copy_strings;
use crate::config::settings::blank;
use crate::config::settings::is_blank;
use crate::custom_workflow::definition::CustomWorkflowConfig;
use crate::custom_workflow::definition::CustomWorkflowDefinition;
use crate::scan::find_any;
use crate::scan::{all_of, law_first_of, law_without_leading, law_without_trailing};
use crate::scan::slice;
use crate::scan::trim_leading;
use crate::scan::trim_trailing;
use crate::scan::{first_of, without_leading, without_trailing};
use crate::text::cat2;
use crate::text::cat3;
use crate::text::cat4;
use crate::text::from_chars;
use crate::text::{all_whitespace, law_trim, whitespace};
use crate::text::owned;
use crate::text::str_equal;
use crate::text::string_views;
use crate::text::to_chars;
use crate::text::trim;
use crate::text::trim_chars;
use crate::text::trim_start;
use crate::text::{trimmed, trimmed_start};

verus! {

// ---------------------------------------------------------------------------
// Commands
// ---------------------------------------------------------------------------
/// A command that calls a workflow.
#[derive(Clone, Debug, PartialEq, Eq)]
pub struct CustomWorkflowCommand {
    pub name: String,
    pub workflow: String,
    pub args: String,
}

/// A command that calls a workflow, as plain values.
#[verifier::ext_equal]
pub struct WorkflowCommandView {
    pub name: Seq<char>,
    pub workflow: Seq<char>,
    pub args: Seq<char>,
}

impl View for CustomWorkflowCommand {
    type V = WorkflowCommandView;

    open spec fn view(&self) -> WorkflowCommandView {
        WorkflowCommandView { name: self.name@, workflow: self.workflow@, args: self.args@ }
    }
}

/// What two commands have in common that ask for the same.
#[derive(Clone, Debug, PartialEq, Eq)]
pub struct WorkflowLockIdentity {
    pub workflow: String,
    pub args: String,
}

/// What a command locks. `workflow` and `args` are the forms for comparison of
/// its workflow and its arguments.
pub open spec fn workflow_lock_key(
    command: WorkflowCommandView,
    workflow: Seq<char>,
    args: Seq<char>,
) -> Seq<char> {
    "custom_workflow:"@ + identity_of(command.workflow, workflow) + ":"@ + identity_of(
        command.args,
        args,
    )
}

impl CustomWorkflowCommand {
    /// What this command has in common with those that ask for the same.
    /// `workflow` and `args` are the forms for comparison of its workflow and its
    /// arguments.
    pub fn lock_identity(&self, workflow: &str, args: &str) -> (r: WorkflowLockIdentity)
        ensures
            r.workflow@ == identity_of(self.workflow@, workflow@),
            r.args@ == identity_of(self.args@, args@),
    {
        WorkflowLockIdentity {
            workflow: command_identity(self.workflow.as_str(), workflow),
            args: command_identity(self.args.as_str(), args),
        }
    }

    /// What this command locks. `workflow` and `args` are the forms for
    /// comparison of its workflow and its arguments.
    pub fn lock_key(&self, workflow: &str, args: &str) -> (r: String)
        ensures
            r@ == workflow_lock_key(self@, workflow@, args@),
    {
        let identity = self.lock_identity(workflow, args);
        cat4("custom_workflow:", identity.workflow.as_str(), ":", identity.args.as_str())
    }

    /// Whether two commands ask for the same. The forms for comparison of
    /// workflow and arguments stand behind each.
    pub fn same_request(
        &self,
        workflow: &str,
        args: &str,
        other: &Self,
        other_workflow: &str,
        other_args: &str,
    ) -> (r: bool)
        ensures
            r == (identity_of(self.workflow@, workflow@) == identity_of(
                other.workflow@,
                other_workflow@,
            ) && identity_of(self.args@, args@) == identity_of(other.args@, other_args@)),
    {
        let left = self.lock_identity(workflow, args);
        let right = other.lock_identity(other_workflow, other_args);
        str_equal(left.workflow.as_str(), right.workflow.as_str()) && str_equal(
            left.args.as_str(),
            right.args.as_str(),
        )
    }
}

/// A command that was found to call a workflow.
#[derive(Clone, Debug, PartialEq, Eq)]
pub struct CustomWorkflowMatch {
    pub matched: String,
    pub raw: String,
    pub user_command: String,
    pub message_type: String,
    pub username: String,
    pub command: CustomWorkflowCommand,
}

/// A command that was found to call a workflow, as plain values.
#[verifier::ext_equal]
pub struct WorkflowMatchView {
    pub matched: Seq<char>,
    pub raw: Seq<char>,
    pub user_command: Seq<char>,
    pub message_type: Seq<char>,
    pub username: Seq<char>,
    pub command: WorkflowCommandView,
}

impl View for CustomWorkflowMatch {
    type V = WorkflowMatchView;

    open spec fn view(&self) -> WorkflowMatchView {
        WorkflowMatchView {
            matched: self.matched@,
            raw: self.raw@,
            user_command: self.user_command@,
            message_type: self.message_type@,
            username: self.username@,
            command: self.command@,
        }
    }
}

/// A command and its arguments in one text.
pub open spec fn with_args(command: Seq<char>, args: Seq<char>) -> Seq<char> {
    if args.len() == 0 {
        command
    } else {
        command + " "@ + args
    }
}

/// A command and its arguments in one text.
pub fn joined_command(command: &str, args: &str) -> (r: String)
    ensures
        r@ == with_args(command@, args@),
{
    if is_empty_text(args) {
        owned(command)
    } else {
        cat3(command, " ", args)
    }
}

// ---------------------------------------------------------------------------
// The parts of a message
// ---------------------------------------------------------------------------
/// What stands between a name and what is said.
pub open spec fn name_ends() -> Seq<char> {
    seq!['：', ':', ']', '】']
}

/// What may stand before what is said.
pub open spec fn gaps() -> Seq<char> {
    seq!['：', ':', ' ', '\t', ']', '】']
}

/// What may stand around a name.
pub open spec fn name_frame() -> Seq<char> {
    seq!['[', '【', ']', '】', ' ', '\t']
}

/// What stands between a name and what is said.
pub fn name_end_chars() -> (r: Vec<char>)
    ensures
        r@ == name_ends(),
{
    let set = vec!['：', ':', ']', '】'];
    assert(set@ =~= name_ends());
    set
}

/// What may stand before what is said.
pub fn gap_chars() -> (r: Vec<char>)
    ensures
        r@ == gaps(),
{
    let set = vec!['：', ':', ' ', '\t', ']', '】'];
    assert(set@ =~= gaps());
    set
}

/// What may stand around a name.
fn name_frame_chars() -> (r: Vec<char>)
    ensures
        r@ == name_frame(),
{
    let set = vec!['[', '【', ']', '】', ' ', '\t'];
    assert(set@ =~= name_frame());
    set
}

/// A message: who said it, the command without its sign, and all that was said.
#[derive(Debug)]
pub struct MessageParts {
    pub username: String,
    pub command_text: String,
    pub user_command: String,
}

/// What was said, behind a place of a message.
pub open spec fn said_behind(text: Seq<char>, at: int) -> Seq<char> {
    without_leading(text.skip(at + 1), gaps())
}

/// The name in square brackets.
pub open spec fn bracket_name(text: Seq<char>) -> Option<Seq<char>> {
    match first_of(text, seq!['[']) {
        Some(start) => {
            let rest = text.skip(start + 1);
            match first_of(rest, seq![']']) {
                Some(end) => if blank(rest.take(end)) {
                    None
                } else {
                    Some(trimmed(rest.take(end)))
                },
                None => None,
            }
        },
        None => None,
    }
}

/// Who a message is from.
pub open spec fn sender_of(text: Seq<char>, message_type: Seq<char>) -> Option<Seq<char>> {
    if message_type == "blue"@ {
        match first_of(text, name_ends()) {
            Some(at) => Some(
                without_trailing(without_leading(text.take(at), name_frame()), name_frame()),
            ),
            None => None,
        }
    } else if message_type == "pink"@ {
        bracket_name(text)
    } else {
        None
    }
}

/// The parts of a message, where it is a command: who said it, the command
/// without its sign, and all that was said.
pub open spec fn message_parts(text: Seq<char>, message_type: Seq<char>) -> Option<
    (Seq<char>, Seq<char>, Seq<char>),
> {
    match (sender_of(text, message_type), first_of(text, name_ends())) {
        (Some(username), Some(at)) => match after_exact_prefix(said_behind(text, at), "@"@) {
            Some(command) => Some(
                (username, trimmed_start(command), cleaned_command(said_behind(text, at))),
            ),
            None => None,
        },
        _ => None,
    }
}

/// Whether a name in a friend's message stands in wide brackets only. Such a
/// message cannot be taken apart.
pub open spec fn wide_brackets_only(text: Seq<char>) -> bool {
    !text.contains('[') && text.contains('【')
}

/// What was said, behind a place of a message.
fn after_separator(chars: &Vec<char>, at: usize) -> (r: String)
    requires
        at < chars@.len(),
    ensures
        r@ == said_behind(chars@, at as int),
{
    let end: usize = chars.len();
    let rest = slice(chars, at + 1, end);
    assert(rest@ =~= chars@.skip(at + 1));
    from_chars(trim_leading(&rest, &gap_chars()).as_slice())
}

/// The name in square brackets.
fn extract_bracket_username(chars: &Vec<char>) -> (r: Option<String>)
    ensures
        match r {
            Some(name) => bracket_name(chars@) == Some(name@),
            None => bracket_name(chars@) is None,
        },
{
    let open = vec!['['];
    assert(open@ =~= seq!['[']);
    let close = vec![']'];
    assert(close@ =~= seq![']']);
    match find_any(chars, &open) {
        Some(start) => {
            let whole: usize = chars.len();
            let rest = slice(chars, start + 1, whole);
            assert(rest@ =~= chars@.skip(start + 1));
            match find_any(&rest, &close) {
                Some(end) => {
                    let inside = slice(&rest, 0, end);
                    assert(inside@ =~= rest@.take(end as int));
                    let name = from_chars(inside.as_slice());
                    if is_blank(name.as_str()) {
                        None
                    } else {
                        Some(trim(name.as_str()))
                    }
                },
                None => None,
            }
        },
        None => None,
    }
}

/// The parts of a message, where it is a command.
pub fn chat_command_parts(text: &str, message_type: &str) -> (r: Option<MessageParts>)
    requires
        message_type@ == "pink"@ ==> !wide_brackets_only(text@),
    ensures
        match r {
            Some(parts) => message_parts(text@, message_type@) == Some(
                (parts.username@, parts.command_text@, parts.user_command@),
            ),
            None => message_parts(text@, message_type@) is None,
        },
{
    let chars = to_chars(text);
    let at: usize = match find_any(&chars, &name_end_chars()) {
        Some(at) => at,
        None => {
            return None;
        },
    };
    let username = if str_equal(message_type, "blue") {
        let before = slice(&chars, 0, at);
        assert(before@ =~= chars@.take(at as int));
        let started = trim_leading(&before, &name_frame_chars());
        from_chars(trim_trailing(&started, &name_frame_chars()).as_slice())
    } else if str_equal(message_type, "pink") {
        match extract_bracket_username(&chars) {
            Some(name) => name,
            None => {
                return None;
            },
        }
    } else {
        return None;
    };
    let said = after_separator(&chars, at);
    match strip_exact_prefix(said.as_str(), "@") {
        Some(command) => Some(
            MessageParts {
                username,
                command_text: trim_start(command.as_str()),
                user_command: clean_command(said.as_str()),
            },
        ),
        None => None,
    }
}

// ---------------------------------------------------------------------------
// Finding the workflow
// ---------------------------------------------------------------------------
/// A command as it is described, without its sign.
pub open spec fn bare_command(command: Seq<char>) -> Seq<char> {
    without_leading(trimmed(command), seq!['@'])
}

/// A command as it is described, without its sign.
fn strip_sign(command: &str) -> (r: String)
    ensures
        r@ == bare_command(command@),
{
    let sign = vec!['@'];
    assert(sign@ =~= seq!['@']);
    from_chars(trim_leading(&to_chars(trim(command).as_str()), &sign).as_slice())
}

/// The arguments behind a command.
pub open spec fn args_behind(rest: Seq<char>) -> Seq<char> {
    trimmed(without_trailing(without_leading(rest, gaps()), closers()))
}

/// The arguments behind a command.
fn command_args(rest: &str) -> (r: String)
    ensures
        r@ == args_behind(rest@),
{
    let started = trim_leading(&to_chars(rest), &gap_chars());
    let ended = trim_trailing(&started, &closer_chars());
    from_chars(trim_chars(ended.as_slice()).as_slice())
}

/// The arguments of a command, where a text is that command.
pub open spec fn called_args(command_text: Seq<char>, command: Seq<char>, allow_args: bool) -> Option<
    Seq<char>,
> {
    if command.len() == 0 {
        None
    } else {
        match after_prefix(command_text, command) {
            Some(rest) => if allow_args || (command_boundary(first_char(rest)) && args_behind(
                rest,
            ).len() == 0) {
                Some(args_behind(rest))
            } else {
                None
            },
            None => None,
        }
    }
}

/// The arguments of a command, where a text is that command.
fn match_command(command_text: &str, command: &str, allow_args: bool) -> (r: Option<String>)
    ensures
        match r {
            Some(args) => called_args(command_text@, command@, allow_args) == Some(args@),
            None => called_args(command_text@, command@, allow_args) is None,
        },
{
    if is_empty_text(command) {
        return None;
    }
    match strip_ascii_case_prefix(command_text, command) {
        Some(rest) => {
            if !is_command_boundary(leading_char(rest.as_str())) && !allow_args {
                return None;
            }
            let args = command_args(rest.as_str());
            if !allow_args && !is_empty_text(args.as_str()) {
                return None;
            }
            Some(args)
        },
        None => None,
    }
}

/// The first of some commands, from one on, that a text is, with its arguments.
pub open spec fn called_command(
    command_text: Seq<char>,
    commands: Seq<Seq<char>>,
    allow_args: bool,
    i: int,
) -> Option<(Seq<char>, Seq<char>)>
    decreases commands.len() - i,
{
    if i < 0 || i >= commands.len() {
        None
    } else {
        match called_args(command_text, bare_command(commands[i]), allow_args) {
            Some(args) => Some((bare_command(commands[i]), args)),
            None => called_command(command_text, commands, allow_args, i + 1),
        }
    }
}

/// Whether one of some types of message is one, whatever the case of its letters.
pub open spec fn type_among(types: Seq<Seq<char>>, message_type: Seq<char>) -> bool {
    exists|i: int| 0 <= i < types.len() && lowered(#[trigger] types[i]) == lowered(message_type)
}

/// Whether messages of a type are accepted: where none is named, all are.
pub open spec fn accepted_type(types: Seq<Seq<char>>, message_type: Seq<char>) -> bool {
    types.len() == 0 || type_among(types, message_type)
}

/// Whether messages of a type are accepted: where none is named, all are.
pub fn accepts_type(types: &Vec<String>, message_type: &str) -> (r: bool)
    ensures
        r == accepted_type(string_views(types@), message_type@),
{
    if types.len() == 0 {
        return true;
    }
    let mut i: usize = 0;
    while i < types.len()
        invariant
            i <= types@.len(),
            forall|k: int|
                0 <= k < i ==> lowered(#[trigger] string_views(types@)[k]) != lowered(
                    message_type@,
                ),
        decreases types@.len() - i,
    {
        assert(string_views(types@)[i as int] == types@[i as int]@);
        if equal_lowered(types[i].as_str(), message_type) {
            return true;
        }
        i = i + 1;
    }
    false
}

/// What a workflow is called, or else another name.
pub open spec fn name_or(workflow: CustomWorkflowDefinition, fallback: Seq<char>) -> Seq<char> {
    if blank(workflow.name@) {
        fallback
    } else {
        trimmed(workflow.name@)
    }
}

/// What a workflow is called, or else another name.
fn workflow_name(workflow: &CustomWorkflowDefinition, fallback: &str) -> (r: String)
    ensures
        r@ == name_or(*workflow, fallback@),
{
    if is_blank(workflow.name.as_str()) {
        owned(fallback)
    } else {
        trim(workflow.name.as_str())
    }
}

/// The first of some workflows, from one on, that a text calls, with the command
/// that calls it and its arguments.
pub open spec fn called_workflow(
    workflows: Seq<CustomWorkflowDefinition>,
    command_text: Seq<char>,
    message_type: Seq<char>,
    i: int,
) -> Option<(int, Seq<char>, Seq<char>)>
    decreases workflows.len() - i,
{
    if i < 0 || i >= workflows.len() {
        None
    } else if workflows[i].enabled && accepted_type(
        string_views(workflows[i].message_types@),
        message_type,
    ) && called_command(
        command_text,
        string_views(workflows[i].commands@),
        workflows[i].allow_args,
        0,
    ) is Some {
        let (command, args) = called_command(
            command_text,
            string_views(workflows[i].commands@),
            workflows[i].allow_args,
            0,
        )->0;
        Some((i, command, args))
    } else {
        called_workflow(workflows, command_text, message_type, i + 1)
    }
}

/// The command among those of a workflow that a text is, with its arguments.
fn find_command(workflow: &CustomWorkflowDefinition, command_text: &str) -> (r: Option<
    (String, String),
>)
    ensures
        match r {
            Some((command, args)) => called_command(
                command_text@,
                string_views(workflow.commands@),
                workflow.allow_args,
                0,
            ) == Some((command@, args@)),
            None => called_command(
                command_text@,
                string_views(workflow.commands@),
                workflow.allow_args,
                0,
            ) is None,
        },
{
    let ghost commands = string_views(workflow.commands@);
    let mut i: usize = 0;
    while i < workflow.commands.len()
        invariant
            commands == string_views(workflow.commands@),
            i <= workflow.commands@.len(),
            called_command(command_text@, commands, workflow.allow_args, 0) == called_command(
                command_text@,
                commands,
                workflow.allow_args,
                i as int,
            ),
        decreases workflow.commands@.len() - i,
    {
        assert(commands[i as int] == workflow.commands@[i as int]@);
        let command = strip_sign(workflow.commands[i].as_str());
        if let Some(args) = match_command(command_text, command.as_str(), workflow.allow_args) {
            return Some((command, args));
        }
        i = i + 1;
    }
    None
}

/// The workflow that a message calls.
pub open spec fn chat_call(
    config: CustomWorkflowConfig,
    text: Seq<char>,
    message_type: Seq<char>,
) -> Option<WorkflowMatchView> {
    if !config.enabled {
        None
    } else {
        match message_parts(text, message_type) {
            Some((username, command_text, user_command)) => match called_workflow(
                config.workflows@,
                command_text,
                message_type,
                0,
            ) {
                Some((i, matched, args)) => Some(
                    WorkflowMatchView {
                        matched,
                        raw: with_args(matched, args),
                        user_command,
                        message_type,
                        username,
                        command: WorkflowCommandView {
                            name: matched,
                            workflow: name_or(config.workflows@[i], matched),
                            args,
                        },
                    },
                ),
                None => None,
            },
            None => None,
        }
    }
}

/// The workflow that a message calls.
pub fn parse_text(config: &CustomWorkflowConfig, text: &str, message_type: &str) -> (r: Option<
    CustomWorkflowMatch,
>)
    requires
        config.enabled && message_type@ == "pink"@ ==> !wide_brackets_only(text@),
    ensures
        match r {
            Some(found) => chat_call(*config, text@, message_type@) == Some(found@),
            None => chat_call(*config, text@, message_type@) is None,
        },
{
    if !config.enabled {
        return None;
    }
    let parts = match chat_command_parts(text, message_type) {
        Some(parts) => parts,
        None => {
            return None;
        },
    };
    let mut i: usize = 0;
    while i < config.workflows.len()
        invariant
            config.enabled,
            i <= config.workflows@.len(),
            message_parts(text@, message_type@) == Some(
                (parts.username@, parts.command_text@, parts.user_command@),
            ),
            called_workflow(config.workflows@, parts.command_text@, message_type@, 0)
                == called_workflow(
                config.workflows@,
                parts.command_text@,
                message_type@,
                i as int,
            ),
        decreases config.workflows@.len() - i,
    {
        let workflow = &config.workflows[i];
        if workflow.enabled && accepts_type(&workflow.message_types, message_type) {
            if let Some((matched, args)) = find_command(workflow, parts.command_text.as_str()) {
                let name = workflow_name(workflow, matched.as_str());
                return Some(
                    CustomWorkflowMatch {
                        raw: joined_command(matched.as_str(), args.as_str()),
                        user_command: parts.user_command,
                        message_type: owned(message_type),
                        username: parts.username,
                        command: CustomWorkflowCommand {
                            name: matched.clone(),
                            workflow: name,
                            args,
                        },
                        matched,
                    },
                );
            }
        }
        i = i + 1;
    }
    None
}

// ---------------------------------------------------------------------------
// Workflows by name
// ---------------------------------------------------------------------------
/// A name as it is compared.
pub open spec fn plain_name(text: Seq<char>) -> Seq<char> {
    lowered(trimmed(text))
}

/// Whether a workflow, or one of its commands, has a name.
pub open spec fn has_name(workflow: CustomWorkflowDefinition, target: Seq<char>) -> bool {
    ||| plain_name(workflow.name@) == target
    ||| exists|i: int|
        0 <= i < workflow.commands@.len() && plain_name(
            bare_command((#[trigger] workflow.commands@[i])@),
        ) == target
}

/// The first workflow of a name, from one on, that is switched on.
pub open spec fn named_workflow_from(
    workflows: Seq<CustomWorkflowDefinition>,
    target: Seq<char>,
    i: int,
) -> Option<int>
    decreases workflows.len() - i,
{
    if i < 0 || i >= workflows.len() {
        None
    } else if workflows[i].enabled && has_name(workflows[i], target) {
        Some(i)
    } else {
        named_workflow_from(workflows, target, i + 1)
    }
}

/// The first workflow of a name that is switched on.
pub open spec fn named_workflow(workflows: Seq<CustomWorkflowDefinition>, name: Seq<char>) -> Option<
    int,
> {
    named_workflow_from(workflows, plain_name(name), 0)
}

/// Whether a workflow, or one of its commands, has a name.
fn workflow_matches_name(workflow: &CustomWorkflowDefinition, target: &str) -> (r: bool)
    ensures
        r == has_name(*workflow, target@),
{
    if str_equal(to_lowered(trim(workflow.name.as_str()).as_str()).as_str(), target) {
        return true;
    }
    let mut i: usize = 0;
    while i < workflow.commands.len()
        invariant
            i <= workflow.commands@.len(),
            forall|k: int|
                0 <= k < i ==> plain_name(bare_command((#[trigger] workflow.commands@[k])@))
                    != target@,
        decreases workflow.commands@.len() - i,
    {
        let command = strip_sign(workflow.commands[i].as_str());
        if str_equal(to_lowered(trim(command.as_str()).as_str()).as_str(), target) {
            return true;
        }
        i = i + 1;
    }
    false
}

/// The first workflow of a name that is switched on.
pub fn find_workflow(config: &CustomWorkflowConfig, name: &str) -> (r: Option<usize>)
    ensures
        match r {
            Some(i) => named_workflow(config.workflows@, name@) == Some(i as int) && i
                < config.workflows@.len(),
            None => named_workflow(config.workflows@, name@) is None,
        },
{
    let target = to_lowered(trim(name).as_str());
    let mut i: usize = 0;
    while i < config.workflows.len()
        invariant
            i <= config.workflows@.len(),
            target@ == plain_name(name@),
            named_workflow(config.workflows@, name@) == named_workflow_from(
                config.workflows@,
                target@,
                i as int,
            ),
        decreases config.workflows@.len() - i,
    {
        if config.workflows[i].enabled && workflow_matches_name(
            &config.workflows[i],
            target.as_str(),
        ) {
            return Some(i);
        }
        i = i + 1;
    }
    None
}

/// A call from the console: the workflow of a name, with arguments.
pub open spec fn remote_call(
    config: CustomWorkflowConfig,
    name: Seq<char>,
    args: Seq<char>,
) -> Result<WorkflowMatchView, Seq<char>> {
    if !config.enabled {
        Err("自定义工作流未启用"@)
    } else if blank(name) {
        Err("name 不能为空"@)
    } else {
        match named_workflow(config.workflows@, trimmed(name)) {
            None => Err("自定义工作流不存在或未启用"@),
            Some(i) => {
                let workflow = config.workflows@[i];
                let command = if workflow.commands@.len() > 0 && bare_command(
                    workflow.commands@[0]@,
                ).len() > 0 {
                    bare_command(workflow.commands@[0]@)
                } else {
                    trimmed(name)
                };
                let raw = with_args(command, trimmed(args));
                if !workflow.allow_args && !blank(args) {
                    Err("该自定义工作流不允许参数"@)
                } else {
                    Ok(
                        WorkflowMatchView {
                            matched: command,
                            raw,
                            user_command: "@"@ + raw,
                            message_type: "控制台"@,
                            username: "控制台"@,
                            command: WorkflowCommandView {
                                name: command,
                                workflow: name_or(workflow, command),
                                args: trimmed(args),
                            },
                        },
                    )
                }
            },
        }
    }
}

/// A call from the console: the workflow of a name, with arguments.
pub fn remote_match(config: &CustomWorkflowConfig, name: &str, args: &str) -> (r: Result<
    CustomWorkflowMatch,
    String,
>)
    ensures
        match r {
            Ok(found) => remote_call(*config, name@, args@) == Ok::<WorkflowMatchView, Seq<char>>(
                found@,
            ),
            Err(reason) => remote_call(*config, name@, args@) == Err::<
                WorkflowMatchView,
                Seq<char>,
            >(reason@),
        },
{
    if !config.enabled {
        return Err(owned("自定义工作流未启用"));
    }
    let name = trim(name);
    if is_empty_text(name.as_str()) {
        return Err(owned("name 不能为空"));
    }
    let args = trim(args);
    let i: usize = match find_workflow(config, name.as_str()) {
        Some(i) => i,
        None => {
            return Err(owned("自定义工作流不存在或未启用"));
        },
    };
    let workflow = &config.workflows[i];
    if !workflow.allow_args && !is_empty_text(args.as_str()) {
        return Err(owned("该自定义工作流不允许参数"));
    }
    let first = if workflow.commands.len() > 0 {
        strip_sign(workflow.commands[0].as_str())
    } else {
        owned("")
    };
    proof {
        reveal_strlit("");
    }
    let command = if is_empty_text(first.as_str()) {
        name
    } else {
        first
    };
    let workflow_name = workflow_name(workflow, command.as_str());
    let raw = joined_command(command.as_str(), args.as_str());
    Ok(
        CustomWorkflowMatch {
            matched: command.clone(),
            user_command: cat2("@", raw.as_str()),
            raw,
            message_type: owned("控制台"),
            username: owned("控制台"),
            command: CustomWorkflowCommand { name: command, workflow: workflow_name, args },
        },
    )
}

// ---------------------------------------------------------------------------
// The workflows there are
// ---------------------------------------------------------------------------
/// A workflow as it is listed.
#[derive(Clone, Debug, PartialEq, Eq)]
pub struct CustomWorkflowSummary {
    pub name: String,
    pub commands: Vec<String>,
    pub allow_args: bool,
    pub confirm_before_run: bool,
}

/// A workflow as it is listed, as plain values.
#[verifier::ext_equal]
pub struct SummaryView {
    pub name: Seq<char>,
    pub commands: Seq<Seq<char>>,
    pub allow_args: bool,
    pub confirm_before_run: bool,
}

impl View for CustomWorkflowSummary {
    type V = SummaryView;

    open spec fn view(&self) -> SummaryView {
        SummaryView {
            name: self.name@,
            commands: string_views(self.commands@),
            allow_args: self.allow_args,
            confirm_before_run: self.confirm_before_run,
        }
    }
}

/// A workflow as it is listed, where it is switched on and has a name or a
/// command.
pub open spec fn summary_of(workflow: CustomWorkflowDefinition) -> Option<SummaryView> {
    if !workflow.enabled || (blank(workflow.name@) && workflow.commands@.len() == 0) {
        None
    } else {
        Some(
            SummaryView {
                name: if blank(workflow.name@) {
                    trimmed(workflow.commands@[0]@)
                } else {
                    trimmed(workflow.name@)
                },
                commands: string_views(workflow.commands@),
                allow_args: workflow.allow_args,
                confirm_before_run: workflow.confirm_before_run,
            },
        )
    }
}

/// The workflows that are listed, in order.
pub open spec fn summaries(workflows: Seq<CustomWorkflowDefinition>) -> Seq<SummaryView>
    decreases workflows.len(),
{
    if workflows.len() == 0 {
        Seq::empty()
    } else {
        match summary_of(workflows.last()) {
            Some(summary) => summaries(workflows.drop_last()).push(summary),
            None => summaries(workflows.drop_last()),
        }
    }
}

/// What a list shows.
pub open spec fn summary_views(list: Seq<CustomWorkflowSummary>) -> Seq<SummaryView> {
    Seq::new(list.len(), |i: int| list[i]@)
}

/// The workflows that are listed, in order.
pub fn list_workflows(config: &CustomWorkflowConfig) -> (r: Vec<CustomWorkflowSummary>)
    ensures
        summary_views(r@) == summaries(config.workflows@),
{
    let mut out: Vec<CustomWorkflowSummary> = Vec::new();
    let mut i: usize = 0;
    assert(config.workflows@.take(0) =~= Seq::empty());
    assert(summary_views(out@) =~= Seq::empty());
    while i < config.workflows.len()
        invariant
            i <= config.workflows@.len(),
            summary_views(out@) == summaries(config.workflows@.take(i as int)),
        decreases config.workflows@.len() - i,
    {
        let workflow = &config.workflows[i];
        assert(config.workflows@.take(i + 1).drop_last() =~= config.workflows@.take(i as int));
        let unnamed = is_blank(workflow.name.as_str());
        if workflow.enabled && (!unnamed || workflow.commands.len() > 0) {
            let name = if unnamed {
                trim(workflow.commands[0].as_str())
            } else {
                trim(workflow.name.as_str())
            };
            let ghost before = out@;
            let summary = CustomWorkflowSummary {
                name,
                commands: copy_strings(&workflow.commands),
                allow_args: workflow.allow_args,
                confirm_before_run: workflow.confirm_before_run,
            };
            let ghost view = summary@;
            out.push(summary);
            assert(summary_views(out@) =~= summary_views(before).push(view));
        }
        i = i + 1;
    }
    assert(config.workflows@.take(i as int) =~= config.workflows@);
    out
}

// ---------------------------------------------------------------------------
// What holds of it
// ---------------------------------------------------------------------------
/// What a message calls is a workflow that is switched on and accepts messages of
/// that type, and it gets no arguments unless it allows them.
pub proof fn law_called_workflow_is_open(
    config: CustomWorkflowConfig,
    text: Seq<char>,
    message_type: Seq<char>,
)
    requires
        chat_call(config, text, message_type) is Some,
    ensures
        config.enabled,
        exists|i: int|
            0 <= i < config.workflows@.len() && {
                let workflow = #[trigger] config.workflows@[i];
                let call = chat_call(config, text, message_type)->0;
                &&& workflow.enabled
                &&& accepted_type(string_views(workflow.message_types@), message_type)
                &&& !workflow.allow_args ==> call.command.args.len() == 0
                &&& call.command.workflow == name_or(workflow, call.matched)
            },
{
    let (_, command_text, _) = message_parts(text, message_type)->0;
    lemma_called_workflow(config.workflows@, command_text, message_type, 0);
}

proof fn lemma_called_workflow(
    workflows: Seq<CustomWorkflowDefinition>,
    command_text: Seq<char>,
    message_type: Seq<char>,
    i: int,
)
    ensures
        called_workflow(workflows, command_text, message_type, i) matches Some((k, _, args)) ==> {
            &&& i <= k < workflows.len() && 0 <= k
            &&& workflows[k].enabled
            &&& accepted_type(string_views(workflows[k].message_types@), message_type)
            &&& !workflows[k].allow_args ==> args.len() == 0
        },
    decreases workflows.len() - i,
{
    if 0 <= i < workflows.len() {
        lemma_called_command(
            command_text,
            string_views(workflows[i].commands@),
            workflows[i].allow_args,
            0,
        );
        lemma_called_workflow(workflows, command_text, message_type, i + 1);
    }
}

proof fn lemma_called_command(
    command_text: Seq<char>,
    commands: Seq<Seq<char>>,
    allow_args: bool,
    i: int,
)
    ensures
        called_command(command_text, commands, allow_args, i) matches Some((_, args)) ==> (
        !allow_args ==> args.len() == 0),
    decreases commands.len() - i,
{
    if 0 <= i < commands.len() {
        lemma_called_command(command_text, commands, allow_args, i + 1);
    }
}

/// A workflow that is found by a name is switched on and has that name.
pub proof fn law_found_by_name(workflows: Seq<CustomWorkflowDefinition>, name: Seq<char>)
    ensures
        named_workflow(workflows, name) matches Some(k) ==> 0 <= k < workflows.len()
            && workflows[k].enabled && has_name(workflows[k], plain_name(name)),
{
    lemma_named_from(workflows, plain_name(name), 0);
}

proof fn lemma_named_from(workflows: Seq<CustomWorkflowDefinition>, target: Seq<char>, i: int)
    ensures
        named_workflow_from(workflows, target, i) matches Some(k) ==> 0 <= k < workflows.len()
            && workflows[k].enabled && has_name(workflows[k], target),
    decreases workflows.len() - i,
{
    if 0 <= i < workflows.len() {
        lemma_named_from(workflows, target, i + 1);
    }
}

/// Two commands ask for the same where what they lock differs in neither part.
pub proof fn law_same_call_same_lock(
    a: WorkflowCommandView,
    b: WorkflowCommandView,
    workflow: Seq<char>,
    args: Seq<char>,
    other_workflow: Seq<char>,
    other_args: Seq<char>,
)
    requires
        identity_of(a.workflow, workflow) == identity_of(b.workflow, other_workflow),
        identity_of(a.args, args) == identity_of(b.args, other_args),
    ensures
        workflow_lock_key(a, workflow, args) == workflow_lock_key(b, other_workflow, other_args),
{
}

/// Whether a text is made of what may stand before what is said.
pub open spec fn before_speech(s: Seq<char>) -> bool {
    forall|i: int|
        0 <= i < s.len() ==> (#[trigger] s[i] == '：' || s[i] == ':' || s[i] == ' ' || s[i] == '\t'
            || s[i] == ']' || s[i] == '】')
}

/// Whether a character can stand inside a name.
pub open spec fn in_name(c: char) -> bool {
    c != '：' && c != ':' && c != ']' && c != '】'
}

/// Whether a text can be a name in a message.
pub open spec fn name_in_message(name: Seq<char>) -> bool {
    &&& name.len() > 0
    &&& forall|i: int| 0 <= i < name.len() ==> in_name(#[trigger] name[i])
    &&& !whitespace(name[0])
    &&& !whitespace(name.last())
    &&& name[0] != '['
    &&& name[0] != '【'
    &&& name.last() != '['
    &&& name.last() != '【'
}

proof fn lemma_sets(s: Seq<char>, c: char)
    ensures
        before_speech(s) ==> all_of(s, gaps()),
        name_ends().contains(c) <==> c == '：' || c == ':' || c == ']' || c == '】',
        gaps().contains(c) <==> c == '：' || c == ':' || c == ' ' || c == '\t' || c == ']' || c
            == '】',
        name_frame().contains(c) <==> c == '[' || c == '【' || c == ']' || c == '】' || c == ' ' || c
            == '\t',
{
    let ends = name_ends();
    assert(ends[0] == '：' && ends[1] == ':' && ends[2] == ']' && ends[3] == '】');
    let gap = gaps();
    assert(gap[0] == '：' && gap[1] == ':' && gap[2] == ' ' && gap[3] == '\t' && gap[4] == ']'
        && gap[5] == '】');
    let frame = name_frame();
    assert(frame[0] == '[' && frame[1] == '【' && frame[2] == ']' && frame[3] == '】' && frame[4]
        == ' ' && frame[5] == '\t');
}

proof fn lemma_said(
    text: Seq<char>,
    at: int,
    before: Seq<char>,
    inner: Seq<char>,
    command: Seq<char>,
    closing: Seq<char>,
)
    requires
        0 <= at < text.len(),
        text.skip(at + 1) == before + (seq!['@'] + (inner + command) + closing),
        before_speech(before),
        all_whitespace(inner),
        plain(command),
        brackets(closing),
    ensures
        said_behind(text, at) == seq!['@'] + (inner + command) + closing,
        after_exact_prefix(said_behind(text, at), "@"@) == Some(inner + command + closing),
        trimmed_start(inner + command + closing) == command + closing,
        cleaned_command(said_behind(text, at)) == seq!['@'] + (inner + command),
{
    reveal_strlit("@");
    assert("@"@ =~= seq!['@']);
    let said = seq!['@'] + (inner + command) + closing;
    assert(said[0] == '@');
    lemma_sets(before, '@');
    law_without_leading(before, said, gaps());
    assert(said =~= seq!['@'] + (inner + command + closing));
    lemma_whole_prefix(seq!['@'], inner + command + closing);
    assert(inner + command + closing =~= inner + (command + closing));
    let rest = command + closing;
    assert(rest[0] == command[0]);
    lemma_whitespace_apart();
    if closing.len() > 0 {
        assert(rest.last() == closing[closing.len() - 1]);
    } else {
        assert(rest.last() == command.last());
    }
    law_trim(inner, rest, Seq::empty());
    let whole = seq!['@'] + (inner + command);
    assert(whole[0] == '@');
    assert(whole.last() == command.last());
    let none = Seq::<char>::empty();
    law_cleaned(none, whole, closing, none);
    assert(none + (whole + closing) + none =~= said);
}

/// A message in the hall is taken apart at the colon behind the name: who said it, the
/// command behind its sign, and all that was said without closing brackets.
pub proof fn law_message_in_the_hall(
    name: Seq<char>,
    colon: char,
    before: Seq<char>,
    inner: Seq<char>,
    command: Seq<char>,
    closing: Seq<char>,
)
    requires
        name_in_message(name),
        colon == '：' || colon == ':',
        before_speech(before),
        all_whitespace(inner),
        plain(command),
        brackets(closing),
    ensures
        message_parts(
            name + (seq![colon] + (before + (seq!['@'] + (inner + command) + closing))),
            "blue"@,
        ) == Some((name, command + closing, seq!['@'] + (inner + command))),
{
    let after = before + (seq!['@'] + (inner + command) + closing);
    let text = name + (seq![colon] + after);
    let at = name.len() as int;
    lemma_sets(before, colon);
    assert forall|i: int| 0 <= i < name.len() implies !name_ends().contains(
        #[trigger] name[i],
    ) by {
        assert(in_name(name[i]));
        lemma_sets(before, name[i]);
    }
    law_first_of(name, colon, after, name_ends());
    assert(text.take(at) =~= name);
    assert(text.skip(at + 1) =~= after);
    lemma_name_stays(name);
    lemma_said(text, at, before, inner, command, closing);
}

proof fn lemma_name_stays(name: Seq<char>)
    requires
        name_in_message(name),
    ensures
        without_trailing(without_leading(name, name_frame()), name_frame()) == name,
        trimmed(name) == name,
{
    let none = Seq::<char>::empty();
    lemma_whitespace_apart();
    assert(in_name(name[0]));
    assert(in_name(name[name.len() - 1]));
    lemma_sets(none, name[0]);
    lemma_sets(none, name.last());
    law_without_leading(none, name, name_frame());
    assert(none + name =~= name);
    law_without_trailing(name, none, name_frame());
    assert(name + none =~= name);
    law_trim(none, name, none);
    assert(none + name + none =~= name);
}

/// A friend's message is taken apart at the bracket behind the name.
pub proof fn law_message_of_a_friend(
    name: Seq<char>,
    before: Seq<char>,
    inner: Seq<char>,
    command: Seq<char>,
    closing: Seq<char>,
)
    requires
        name_in_message(name),
        before_speech(before),
        all_whitespace(inner),
        plain(command),
        brackets(closing),
    ensures
        message_parts(
            seq!['['] + name + (seq![']'] + (before + (seq!['@'] + (inner + command) + closing))),
            "pink"@,
        ) == Some((name, command + closing, seq!['@'] + (inner + command))),
{
    let after = before + (seq!['@'] + (inner + command) + closing);
    let head = seq!['['] + name;
    let text = head + (seq![']'] + after);
    let at = head.len() as int;
    let none = Seq::<char>::empty();
    reveal_strlit("blue");
    reveal_strlit("pink");
    assert("blue"@[0] == 'b');
    assert("pink"@[0] == 'p');
    assert forall|i: int| 0 <= i < head.len() implies !name_ends().contains(
        #[trigger] head[i],
    ) by {
        lemma_sets(none, head[i]);
        if i > 0 {
            assert(head[i] == name[i - 1]);
            assert(in_name(name[i - 1]));
        }
    }
    lemma_sets(none, ']');
    law_first_of(head, ']', after, name_ends());
    assert(seq!['['][0] == '[');
    assert(seq!['['].contains('['));
    law_first_of(none, '[', name + (seq![']'] + after), seq!['[']);
    assert(none + (seq!['['] + (name + (seq![']'] + after))) =~= text);
    assert(text.skip(1) =~= name + (seq![']'] + after));
    assert(seq![']'][0] == ']');
    assert(seq![']'].contains(']'));
    assert forall|i: int| 0 <= i < name.len() implies !seq![']'].contains(#[trigger] name[i]) by {
        assert(in_name(name[i]));
    }
    law_first_of(name, ']', after, seq![']']);
    assert((name + (seq![']'] + after)).take(name.len() as int) =~= name);
    lemma_name_stays(name);
    assert(text.skip(at + 1) =~= after);
    lemma_said(text, at, before, inner, command, closing);
}

/// What does not start with the sign behind the name is no command, and neither is a
/// message of another type.
pub proof fn law_no_command(
    name: Seq<char>,
    colon: char,
    before: Seq<char>,
    said: Seq<char>,
    text: Seq<char>,
    message_type: Seq<char>,
)
    requires
        name_in_message(name),
        colon == '：' || colon == ':',
        before_speech(before),
        said.len() > 0 ==> said[0] != '@' && !before_speech(seq![said[0]]),
    ensures
        message_parts(name + (seq![colon] + (before + said)), "blue"@) is None,
        message_type != "blue"@ && message_type != "pink"@ ==> message_parts(text, message_type)
            is None,
{
    let whole = name + (seq![colon] + (before + said));
    let at = name.len() as int;
    reveal_strlit("@");
    assert("@"@ =~= seq!['@']);
    lemma_sets(before, colon);
    assert forall|i: int| 0 <= i < name.len() implies !name_ends().contains(
        #[trigger] name[i],
    ) by {
        assert(in_name(name[i]));
        lemma_sets(before, name[i]);
    }
    law_first_of(name, colon, before + said, name_ends());
    assert(whole.skip(at + 1) =~= before + said);
    if said.len() > 0 {
        lemma_sets(before, said[0]);
        assert(!gaps().contains(said[0])) by {
            if gaps().contains(said[0]) {
                assert(before_speech(seq![said[0]]));
            }
        }
    }
    law_without_leading(before, said, gaps());
    if after_exact_prefix(said, "@"@) is Some {
        assert(said.subrange(0, 1)[0] == said[0]);
        assert(said.subrange(0, 1) == seq!['@']);
    }
}

/// A text calls a command where it starts with it, in letters of either case: with what
/// follows as arguments where the command allows them, and otherwise only where nothing
/// follows but an end of the message.
pub proof fn law_command_is_called(
    word: Seq<char>,
    command: Seq<char>,
    before: Seq<char>,
    args: Seq<char>,
    after: Seq<char>,
)
    requires
        command.len() > 0,
        word.len() == command.len(),
        lowered(word) == lowered(command),
        before_speech(before),
        clean(args),
        args.len() > 0 ==> args[0] != ']' && args[0] != '】',
        brackets(after),
    ensures
        called_args(word + (before + (args + after)), command, true) == Some(args),
        args.len() > 0 ==> called_args(word + (before + (args + after)), command, false) is None,
        called_args(word, command, false) == Some(Seq::<char>::empty()),
        called_args(word, Seq::empty(), true) is None,
{
    let rest = args + after;
    let none = Seq::<char>::empty();
    lemma_whole_prefix(word, before + rest);
    lemma_whole_prefix(word, none);
    assert(word + none =~= word);
    lemma_args(before, args, after);
    lemma_args(none, none, none);
    assert(none + (none + none) =~= none);
}

proof fn lemma_args(before: Seq<char>, args: Seq<char>, after: Seq<char>)
    requires
        before_speech(before),
        clean(args),
        args.len() > 0 ==> args[0] != ']' && args[0] != '】',
        brackets(after),
    ensures
        args_behind(before + (args + after)) == args,
{
    let none = Seq::<char>::empty();
    lemma_whitespace_apart();
    lemma_gap(after);
    if args.len() > 0 {
        let rest = args + after;
        assert(rest[0] == args[0]);
        lemma_sets(before, rest[0]);
        law_without_leading(before, rest, gaps());
    } else {
        let all = before + after;
        assert(before + (args + after) =~= all);
        assert(before_speech(all)) by {
            assert forall|i: int| 0 <= i < all.len() implies (#[trigger] all[i] == '：' || all[i]
                == ':' || all[i] == ' ' || all[i] == '\t' || all[i] == ']' || all[i] == '】') by {
                if i < before.len() {
                    assert(all[i] == before[i]);
                } else {
                    assert(all[i] == after[i - before.len()]);
                }
            }
        }
        lemma_sets(all, ' ');
        law_without_leading(all, none, gaps());
        assert(all + none =~= all);
        law_without_trailing(none, none, closers());
        assert(none + none =~= none);
        assert(args =~= none);
    }
    if args.len() > 0 {
        law_without_trailing(args, after, closers());
    }
    law_trim(none, args, none);
    assert(none + args + none =~= args);
}

/// Of the commands of a workflow the first that a text is counts, and of the workflows
/// the first that is switched on, accepts the type and has such a command.
pub proof fn law_first_is_called(
    workflows: Seq<CustomWorkflowDefinition>,
    command_text: Seq<char>,
    message_type: Seq<char>,
    k: int,
)
    requires
        0 <= k < workflows.len(),
        forall|i: int|
            0 <= i < k ==> !calls_workflow(#[trigger] workflows[i], command_text, message_type),
    ensures
        calls_workflow(workflows[k], command_text, message_type) ==> (called_workflow(
            workflows,
            command_text,
            message_type,
            0,
        ) matches Some((at, command, args)) && at == k && Some((command, args)) == called_command(
            command_text,
            string_views(workflows[k].commands@),
            workflows[k].allow_args,
            0,
        )),
        !calls_workflow(workflows[k], command_text, message_type) && k == workflows.len() - 1
            ==> called_workflow(workflows, command_text, message_type, 0) is None,
{
    lemma_first_called(workflows, command_text, message_type, k, 0);
}

/// Whether a text calls a workflow.
pub open spec fn calls_workflow(
    workflow: CustomWorkflowDefinition,
    command_text: Seq<char>,
    message_type: Seq<char>,
) -> bool {
    &&& workflow.enabled
    &&& workflow.message_types@.len() == 0 || exists|i: int|
        0 <= i < workflow.message_types@.len() && lowered(
            (#[trigger] workflow.message_types@[i])@,
        ) == lowered(message_type)
    &&& exists|i: int|
        0 <= i < workflow.commands@.len() && called_args(
            command_text,
            bare_command((#[trigger] workflow.commands@[i])@),
            workflow.allow_args,
        ) is Some
}

proof fn lemma_first_called(
    workflows: Seq<CustomWorkflowDefinition>,
    command_text: Seq<char>,
    message_type: Seq<char>,
    k: int,
    from: int,
)
    requires
        0 <= from <= k < workflows.len(),
        forall|i: int|
            from <= i < k ==> !calls_workflow(#[trigger] workflows[i], command_text, message_type),
    ensures
        calls_workflow(workflows[k], command_text, message_type) ==> (called_workflow(
            workflows,
            command_text,
            message_type,
            from,
        ) matches Some((at, command, args)) && at == k && Some((command, args)) == called_command(
            command_text,
            string_views(workflows[k].commands@),
            workflows[k].allow_args,
            0,
        )),
        !calls_workflow(workflows[k], command_text, message_type) && k == workflows.len() - 1
            ==> called_workflow(workflows, command_text, message_type, from) is None,
    decreases k - from,
{
    let workflow = workflows[from];
    let types = string_views(workflow.message_types@);
    let commands = string_views(workflow.commands@);
    assert(accepted_type(types, message_type) <==> workflow.message_types@.len() == 0 || exists|
        i: int,
    |
        0 <= i < workflow.message_types@.len() && lowered((#[trigger] workflow.message_types@[i])@)
            == lowered(message_type)) by {
        if type_among(types, message_type) {
            let i = choose|i: int|
                0 <= i < types.len() && lowered(#[trigger] types[i]) == lowered(message_type);
            assert(lowered(workflow.message_types@[i]@) == lowered(message_type));
        }
        if exists|i: int|
            0 <= i < workflow.message_types@.len() && lowered(
                (#[trigger] workflow.message_types@[i])@,
            ) == lowered(message_type) {
            let i = choose|i: int|
                0 <= i < workflow.message_types@.len() && lowered(
                    (#[trigger] workflow.message_types@[i])@,
                ) == lowered(message_type);
            assert(lowered(types[i]) == lowered(message_type));
        }
    }
    lemma_command_among(command_text, workflow.commands@, workflow.allow_args, 0);
    if from < k {
        lemma_first_called(workflows, command_text, message_type, k, from + 1);
    } else if k == workflows.len() - 1 {
        assert(called_workflow(workflows, command_text, message_type, k + 1) is None);
    }
}

proof fn lemma_command_among(
    command_text: Seq<char>,
    commands: Seq<String>,
    allow_args: bool,
    from: int,
)
    requires
        0 <= from <= commands.len(),
    ensures
        called_command(command_text, string_views(commands), allow_args, from) is Some <==> exists|
            i: int,
        |
            from <= i < commands.len() && called_args(
                command_text,
                bare_command((#[trigger] commands[i])@),
                allow_args,
            ) is Some,
    decreases commands.len() - from,
{
    if from < commands.len() {
        assert(string_views(commands)[from] == commands[from]@);
        lemma_command_among(command_text, commands, allow_args, from + 1);
    }
}

/// The first command that a text is counts, with its own arguments.
pub proof fn law_first_command_counts(
    command_text: Seq<char>,
    commands: Seq<Seq<char>>,
    allow_args: bool,
    k: int,
)
    requires
        0 <= k < commands.len(),
        forall|i: int|
            0 <= i < k ==> called_args(
                command_text,
                bare_command(#[trigger] commands[i]),
                allow_args,
            ) is None,
        called_args(command_text, bare_command(commands[k]), allow_args) is Some,
    ensures
        called_command(command_text, commands, allow_args, 0) == Some(
            (
                bare_command(commands[k]),
                called_args(command_text, bare_command(commands[k]), allow_args)->0,
            ),
        ),
{
    lemma_first_command(command_text, commands, allow_args, k, 0);
}

proof fn lemma_first_command(
    command_text: Seq<char>,
    commands: Seq<Seq<char>>,
    allow_args: bool,
    k: int,
    from: int,
)
    requires
        0 <= from <= k < commands.len(),
        forall|i: int|
            0 <= i < k ==> called_args(
                command_text,
                bare_command(#[trigger] commands[i]),
                allow_args,
            ) is None,
        called_args(command_text, bare_command(commands[k]), allow_args) is Some,
    ensures
        called_command(command_text, commands, allow_args, from) == Some(
            (
                bare_command(commands[k]),
                called_args(command_text, bare_command(commands[k]), allow_args)->0,
            ),
        ),
    decreases k - from,
{
    if from < k {
        assert(called_args(command_text, bare_command(commands[from]), allow_args) is None);
        lemma_first_command(command_text, commands, allow_args, k, from + 1);
    }
}

/// A command is described with its sign or without, and with whitespace round it or
/// without: it is the same command.
pub proof fn law_bare_command(before: Seq<char>, word: Seq<char>, after: Seq<char>)
    requires
        all_whitespace(before),
        all_whitespace(after),
        word.len() > 0,
        !whitespace(word[0]),
        !whitespace(word.last()),
        word[0] != '@',
    ensures
        bare_command(before + word + after) == word,
        bare_command(before + (seq!['@'] + word) + after) == word,
{
    let none = Seq::<char>::empty();
    law_trim(before, word, after);
    law_without_leading(none, word, seq!['@']);
    assert(none + word =~= word);
    let signed = seq!['@'] + word;
    assert(!whitespace('@'));
    assert(signed[0] == '@');
    assert(signed.last() == word.last());
    law_trim(before, signed, after);
    assert(seq!['@'].contains(seq!['@'][0]));
    law_without_leading(seq!['@'], word, seq!['@']);
}

/// A message is a call exactly where workflows are switched on, it is a command and
/// calls one of them; the call tells who said it, the command and its arguments, and the
/// workflow by its name.
pub proof fn law_call_is_told(
    config: CustomWorkflowConfig,
    text: Seq<char>,
    message_type: Seq<char>,
)
    ensures
        !config.enabled ==> chat_call(config, text, message_type) is None,
        message_parts(text, message_type) is None ==> chat_call(config, text, message_type)
            is None,
        config.enabled ==> (message_parts(text, message_type) matches Some(
            (username, command_text, user_command),
        ) ==> (called_workflow(config.workflows@, command_text, message_type, 0) matches Some(
            (i, matched, args),
        ) ==> {
            &&& chat_call(config, text, message_type) matches Some(call)
            &&& call.matched == matched
            &&& args.len() == 0 ==> call.raw == matched
            &&& args.len() > 0 ==> call.raw == matched + " "@ + args
            &&& call.user_command == user_command
            &&& call.message_type == message_type
            &&& call.username == username
            &&& call.command.name == matched
            &&& call.command.args == args
            &&& !blank(config.workflows@[i].name@) ==> call.command.workflow == trimmed(
                config.workflows@[i].name@,
            )
            &&& blank(config.workflows@[i].name@) ==> call.command.workflow == matched
        })),
{
}

/// A workflow that is switched on is found by its name and by each of its commands, with
/// the sign or without, in letters of either case, and of several the first.
pub proof fn law_workflow_is_found(
    workflows: Seq<CustomWorkflowDefinition>,
    name: Seq<char>,
    k: int,
    j: int,
)
    requires
        0 <= k < workflows.len(),
        workflows[k].enabled,
        lowered(trimmed(workflows[k].name@)) == lowered(trimmed(name)) || (0 <= j
            < workflows[k].commands@.len() && lowered(
            trimmed(bare_command(workflows[k].commands@[j]@)),
        ) == lowered(trimmed(name))),
    ensures
        named_workflow(workflows, name) is Some,
        named_workflow(workflows, name)->0 <= k,
        (forall|i: int|
            0 <= i < k ==> !(#[trigger] workflows[i]).enabled || !has_name(
                workflows[i],
                plain_name(name),
            )) ==> named_workflow(workflows, name) == Some(k),
{
    lemma_named_by(workflows, plain_name(name), k, 0);
    law_found_by_name(workflows, name);
}

proof fn lemma_named_by(
    workflows: Seq<CustomWorkflowDefinition>,
    target: Seq<char>,
    k: int,
    from: int,
)
    requires
        0 <= from <= k < workflows.len(),
        workflows[k].enabled,
        has_name(workflows[k], target),
    ensures
        named_workflow_from(workflows, target, from) matches Some(at) && from <= at <= k,
    decreases k - from,
{
    if from < k {
        lemma_named_by(workflows, target, k, from + 1);
    }
}

/// What is called from the console is refused where workflows are switched off, no name
/// is given, no workflow has it, or it allows no arguments and is given some; else it is
/// called by its first command, in the name of the console.
pub proof fn law_calls_from_the_console(
    config: CustomWorkflowConfig,
    name: Seq<char>,
    args: Seq<char>,
)
    ensures
        !config.enabled ==> remote_call(config, name, args) == Err::<WorkflowMatchView, Seq<char>>(
            "自定义工作流未启用"@,
        ),
        config.enabled && blank(name) ==> remote_call(config, name, args) == Err::<
            WorkflowMatchView,
            Seq<char>,
        >("name 不能为空"@),
        config.enabled && !blank(name) && named_workflow(config.workflows@, trimmed(name)) is None
            ==> remote_call(config, name, args) == Err::<WorkflowMatchView, Seq<char>>(
            "自定义工作流不存在或未启用"@,
        ),
        config.enabled && !blank(name) ==> (named_workflow(config.workflows@, trimmed(name))
            matches Some(i) ==> {
            let workflow = config.workflows@[i];
            &&& !workflow.allow_args && !blank(args) ==> remote_call(config, name, args) == Err::<
                WorkflowMatchView,
                Seq<char>,
            >("该自定义工作流不允许参数"@)
            &&& workflow.allow_args || blank(args) ==> {
                &&& remote_call(config, name, args) matches Ok(call)
                &&& call.username == "控制台"@
                &&& call.message_type == "控制台"@
                &&& call.command.args == trimmed(args)
                &&& call.command.name == call.matched
                &&& workflow.commands@.len() > 0 && bare_command(workflow.commands@[0]@).len() > 0
                    ==> call.matched == bare_command(workflow.commands@[0]@)
                &&& workflow.commands@.len() == 0 ==> call.matched == trimmed(name)
                &&& call.user_command == "@"@ + call.raw
                &&& trimmed(args).len() == 0 ==> call.raw == call.matched
                &&& trimmed(args).len() > 0 ==> call.raw == call.matched + " "@ + trimmed(args)
                &&& !blank(workflow.name@) ==> call.command.workflow == trimmed(workflow.name@)
            }
        }),
{
}

/// The workflows that are switched on and have a name or a command are listed, in order
/// and under their names, or under their first commands.
pub proof fn law_listing(
    before: Seq<CustomWorkflowDefinition>,
    workflow: CustomWorkflowDefinition,
)
    ensures
        summaries(Seq::empty()) == Seq::<SummaryView>::empty(),
        !workflow.enabled ==> summaries(before.push(workflow)) == summaries(before),
        blank(workflow.name@) && workflow.commands@.len() == 0 ==> summaries(before.push(workflow))
            == summaries(before),
        workflow.enabled && !blank(workflow.name@) ==> summaries(before.push(workflow))
            == summaries(before).push(
            SummaryView {
                name: trimmed(workflow.name@),
                commands: string_views(workflow.commands@),
                allow_args: workflow.allow_args,
                confirm_before_run: workflow.confirm_before_run,
            },
        ),
        workflow.enabled && blank(workflow.name@) && workflow.commands@.len() > 0 ==> summaries(
            before.push(workflow),
        ) == summaries(before).push(
            SummaryView {
                name: trimmed(workflow.commands@[0]@),
                commands: string_views(workflow.commands@),
                allow_args: workflow.allow_args,
                confirm_before_run: workflow.confirm_before_run,
            },
        ),
{
    assert(before.push(workflow).drop_last() =~= before);
    assert(before.push(workflow).last() == workflow);
}

/// What a call locks names its workflow and its arguments: calls of one workflow with
/// different arguments lock differently.
pub proof fn law_locks_of_calls(
    command: WorkflowCommandView,
    workflow: Seq<char>,
    args: Seq<char>,
    other: Seq<char>,
)
    requires
        workflow.len() > 0,
        args.len() > 0,
        other.len() > 0,
    ensures
        workflow_lock_key(command, workflow, args) == "custom_workflow:"@ + workflow + ":"@ + args,
        workflow_lock_key(command, workflow, args) == workflow_lock_key(command, workflow, other)
            <==> args == other,
{
    let head = "custom_workflow:"@ + workflow + ":"@;
    assert((head + args).skip(head.len() as int) =~= args);
    assert((head + other).skip(head.len() as int) =~= other);
}

/// Whether a text is made of what may stand around a name in the hall.
pub open spec fn around_a_name(s: Seq<char>) -> bool {
    forall|i: int|
        0 <= i < s.len() ==> (#[trigger] s[i] == '[' || s[i] == '【' || s[i] == ' ' || s[i] == '\t')
}

/// Opening brackets, spaces and tabs around a name in the hall are no part of it.
pub proof fn law_frame_around_a_name(
    before: Seq<char>,
    name: Seq<char>,
    behind: Seq<char>,
    end: char,
    rest: Seq<char>,
)
    requires
        around_a_name(before),
        name_in_message(name),
        around_a_name(behind),
        end == '：' || end == ':' || end == ']' || end == '】',
    ensures
        sender_of(before + name + behind + (seq![end] + rest), "blue"@) == Some(name),
{
    let framed = before + name + behind;
    let none = Seq::<char>::empty();
    assert forall|i: int| 0 <= i < framed.len() implies !name_ends().contains(
        #[trigger] framed[i],
    ) by {
        lemma_sets(none, framed[i]);
        if i < before.len() {
            assert(framed[i] == before[i]);
        } else if i < before.len() + name.len() {
            assert(framed[i] == name[i - before.len()]);
            assert(in_name(name[i - before.len()]));
        } else {
            assert(framed[i] == behind[i - before.len() - name.len()]);
        }
    }
    lemma_sets(none, end);
    law_first_of(framed, end, rest, name_ends());
    assert((framed + (seq![end] + rest)).take(framed.len() as int) =~= framed);
    assert forall|i: int| 0 <= i < before.len() implies name_frame().contains(
        #[trigger] before[i],
    ) by {
        lemma_sets(none, before[i]);
    }
    assert forall|i: int| 0 <= i < behind.len() implies name_frame().contains(
        #[trigger] behind[i],
    ) by {
        lemma_sets(none, behind[i]);
    }
    lemma_whitespace_apart();
    assert(in_name(name[0]));
    assert(in_name(name[name.len() - 1]));
    lemma_sets(none, name[0]);
    lemma_sets(none, name.last());
    assert((name + behind)[0] == name[0]);
    assert(before + (name + behind) =~= framed);
    law_without_leading(before, name + behind, name_frame());
    law_without_trailing(name, behind, name_frame());
}

/// A friend's name stands between the first square bracket and the next that closes,
/// without space around it. Nobody is named where nothing but space stands there, nor
/// where no bracket opens.
pub proof fn law_name_in_brackets(
    before: Seq<char>,
    left: Seq<char>,
    name: Seq<char>,
    right: Seq<char>,
    rest: Seq<char>,
)
    requires
        !before.contains('['),
        all_whitespace(left),
        all_whitespace(right),
        !name.contains(']'),
        name.len() > 0 ==> !whitespace(name[0]) && !whitespace(name.last()),
    ensures
        name.len() > 0 ==> sender_of(
            before + (seq!['['] + (left + name + right + (seq![']'] + rest))),
            "pink"@,
        ) == Some(name),
        name.len() == 0 ==> sender_of(
            before + (seq!['['] + (left + name + right + (seq![']'] + rest))),
            "pink"@,
        ) is None,
        sender_of(before, "pink"@) is None,
{
    reveal_strlit("blue");
    reveal_strlit("pink");
    assert("blue"@[0] == 'b' && "pink"@[0] == 'p');
    let inner = left + name + right;
    let open = seq!['['];
    let close = seq![']'];
    assert(open[0] == '[' && close[0] == ']');
    lemma_whitespace_apart();
    assert forall|i: int| 0 <= i < before.len() implies !open.contains(#[trigger] before[i]) by {
        assert(before.contains(before[i]));
    }
    assert forall|i: int| 0 <= i < inner.len() implies !close.contains(#[trigger] inner[i]) by {
        if i < left.len() {
            assert(inner[i] == left[i] && whitespace(left[i]));
        } else if i < left.len() + name.len() {
            assert(inner[i] == name[i - left.len()]);
            assert(name.contains(name[i - left.len()]));
        } else {
            assert(inner[i] == right[i - left.len() - name.len()]);
            assert(whitespace(right[i - left.len() - name.len()]));
        }
    }
    let behind = inner + (close + rest);
    let whole = before + (open + behind);
    law_first_of(before, '[', behind, open);
    law_first_of(inner, ']', rest, close);
    assert(whole.skip(before.len() as int + 1) =~= behind);
    assert(behind.take(inner.len() as int) =~= inner);
    law_trim(left, name, right);
}

/// Only messages in the hall and of friends have somebody who said them.
pub proof fn law_only_two_kinds_have_a_sender(text: Seq<char>, message_type: Seq<char>)
    requires
        message_type != "blue"@,
        message_type != "pink"@,
    ensures
        sender_of(text, message_type) is None,
        message_parts(text, message_type) is None,
{
}

} // verus!
