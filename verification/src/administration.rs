//! Commands that administer the assistant: help, switching commands on and off,
//! leaving when idle, and how chat is listened to.
pub mod application;

use vstd::prelude::*;
use crate::chat_text::CommandSyntax;
use crate::chat_text::compact_command;
use crate::chat_text::is_command_boundary;
use crate::chat_text::leading_char;
use crate::chat_text::parse_prefixed_command;
use crate::chat_text::separator_chars;
use crate::chat_text::strip_ascii_case_prefix;
use crate::chat_text::strip_exact_prefix;
use crate::chat_text::{
    after_exact_prefix, after_prefix, argument_of, closers, command_boundary, compact, first_char,
    prefixed_argument, separators,
};
use crate::command::CommandAuthority;
use crate::command::CommandEnvelope;
use crate::command::CommandPrefix;
use crate::command::FeatureCommandMatch;
use crate::command::{EnvelopeView, MatchView};
use crate::config::checks::is_empty_text;
use crate::config::checks::{law_lowered, lowered};
use crate::scan::number_up_to;
use crate::scan::parse_number;
use crate::scan::slice;
use crate::scan::trim_leading;
use crate::scan::without_leading;
use crate::scan::{
    all_digits, all_of, law_number_is_read, law_without_leading, law_without_trailing,
    lemma_decimal_digits,
};
use crate::text::cat2;
use crate::text::cat3;
use crate::text::format_u64;
use crate::text::from_chars;
use crate::text::is_ascii_digit;
use crate::text::owned;
use crate::text::str_equal;
use crate::text::to_chars;
use crate::text::trim_start;
use crate::text::{
    all_whitespace, ascii_digit, decimal, law_trim, lemma_decimal_tells, lemma_trim_nothing,
    trimmed_start, whitespace,
};

verus! {

/// The shortest time without commands after which the assistant may leave.
pub const IDLE_EXIT_MIN_MINUTES: u32 = 15;

/// How a chat listener may be asked to listen.
#[derive(Clone, Copy, Debug, PartialEq, Eq, Structural)]
pub enum ChatListenerModeCommand {
    Primary,
    Secondary,
    Status,
}

/// What a listener's mode is called.
pub open spec fn mode_label(mode: ChatListenerModeCommand) -> Seq<char> {
    match mode {
        ChatListenerModeCommand::Primary => "一级"@,
        ChatListenerModeCommand::Secondary => "二级"@,
        ChatListenerModeCommand::Status => "状态"@,
    }
}

/// The mode that an argument asks for.
pub open spec fn mode_named(argument: Seq<char>) -> Option<ChatListenerModeCommand> {
    if argument == "一级"@ {
        Some(ChatListenerModeCommand::Primary)
    } else if argument == "二级"@ {
        Some(ChatListenerModeCommand::Secondary)
    } else if argument == "状态"@ {
        Some(ChatListenerModeCommand::Status)
    } else {
        None
    }
}

/// The mode that a text asks for.
pub open spec fn listener_mode(text: Seq<char>) -> Option<ChatListenerModeCommand> {
    match prefixed_argument(text, "监听模式"@, true) {
        Some(argument) => mode_named(argument),
        None => None,
    }
}

impl ChatListenerModeCommand {
    /// What this mode is called.
    pub fn label(self) -> (r: &'static str)
        ensures
            r@ == mode_label(self),
    {
        match self {
            ChatListenerModeCommand::Primary => "一级",
            ChatListenerModeCommand::Secondary => "二级",
            ChatListenerModeCommand::Status => "状态",
        }
    }

    /// The mode that a text asks for.
    pub fn parse(text: &str) -> (r: Option<CommandSyntax<ChatListenerModeCommand>>)
        ensures
            match r {
                Some(parsed) => {
                    &&& listener_mode(text@) == Some(parsed.command)
                    &&& parsed.matched@ == "监听模式"@
                    &&& prefixed_argument(text@, "监听模式"@, true) == Some(parsed.argument@)
                },
                None => listener_mode(text@) is None,
            },
    {
        match parse_prefixed_command(text, "监听模式", true) {
            Some(argument) => {
                let command = if str_equal(argument.as_str(), "一级") {
                    ChatListenerModeCommand::Primary
                } else if str_equal(argument.as_str(), "二级") {
                    ChatListenerModeCommand::Secondary
                } else if str_equal(argument.as_str(), "状态") {
                    ChatListenerModeCommand::Status
                } else {
                    return None;
                };
                Some(CommandSyntax { matched: "监听模式", argument, command })
            },
            None => None,
        }
    }
}

/// A command that administers the assistant.
#[derive(Clone, Debug, PartialEq, Eq)]
pub enum AdministrationCommand {
    Help,
    EntertainmentHelp,
    SetCommandsEnabled { enabled: bool, username: String },
    IdleExit { minutes: u32 },
    ChatListenerMode(ChatListenerModeCommand),
}

/// A command that administers the assistant, as plain values.
#[verifier::ext_equal]
pub enum AdministrationCommandView {
    Help,
    EntertainmentHelp,
    SetCommandsEnabled { enabled: bool, username: Seq<char> },
    IdleExit { minutes: u32 },
    ChatListenerMode(ChatListenerModeCommand),
}

impl View for AdministrationCommand {
    type V = AdministrationCommandView;

    open spec fn view(&self) -> AdministrationCommandView {
        match self {
            AdministrationCommand::Help => AdministrationCommandView::Help,
            AdministrationCommand::EntertainmentHelp => AdministrationCommandView::EntertainmentHelp,
            AdministrationCommand::SetCommandsEnabled { enabled, username } =>
                AdministrationCommandView::SetCommandsEnabled {
                enabled: *enabled,
                username: username@,
            },
            AdministrationCommand::IdleExit { minutes } => AdministrationCommandView::IdleExit {
                minutes: *minutes,
            },
            AdministrationCommand::ChatListenerMode(mode) =>
                AdministrationCommandView::ChatListenerMode(*mode),
        }
    }
}

/// A friend's command, with the words it was found by and how it is recorded.
#[derive(Debug)]
pub struct FriendAdministrationMatch {
    pub matched: &'static str,
    pub raw: String,
    pub command: AdministrationCommand,
}

impl View for FriendAdministrationMatch {
    type V = MatchView<AdministrationCommandView>;

    open spec fn view(&self) -> MatchView<AdministrationCommandView> {
        MatchView { matched: self.matched@, raw: self.raw@, command: self.command@ }
    }
}

// ---------------------------------------------------------------------------
// Parsing
// ---------------------------------------------------------------------------
/// Whether nothing of a message is left but the brackets that end it.
pub open spec fn message_ends(rest: Seq<char>) -> bool {
    rest.len() == 0 || rest[0] == ']' || rest[0] == '】'
}

/// Whether nothing of a message is left but the brackets that end it.
pub fn is_message_end(rest: &str) -> (r: bool)
    ensures
        r == message_ends(rest@),
{
    match leading_char(rest) {
        None => true,
        Some(c) => c == ']' || c == '】',
    }
}

/// How many digits a text starts with.
pub open spec fn digits_at_start(s: Seq<char>) -> nat
    decreases s.len(),
{
    if s.len() == 0 || !ascii_digit(s[0]) {
        0
    } else {
        1 + digits_at_start(s.skip(1))
    }
}

/// A text without the word for minutes at its start.
pub open spec fn without_unit(suffix: Seq<char>) -> Seq<char> {
    match after_exact_prefix(suffix, "分钟"@) {
        Some(rest) => rest,
        None => match after_exact_prefix(suffix, "分"@) {
            Some(rest) => rest,
            None => suffix,
        },
    }
}

/// The minutes that are asked for behind the words for leaving when idle.
pub open spec fn idle_minutes(rest: Seq<char>) -> Option<u32> {
    let rest = without_leading(rest, separators());
    if message_ends(rest) {
        Some(30u32)
    } else {
        let n = digits_at_start(rest) as int;
        let suffix = without_unit(trimmed_start(rest.skip(n)));
        if n == 0 || !command_boundary(first_char(suffix)) {
            None
        } else {
            match number_up_to(rest.take(n), u32::MAX as int) {
                Some(minutes) => if minutes < IDLE_EXIT_MIN_MINUTES {
                    Some(IDLE_EXIT_MIN_MINUTES)
                } else {
                    Some(minutes as u32)
                },
                None => None,
            }
        }
    }
}

/// The command to switch commands on or off, where a text is one.
pub open spec fn switch_command(
    text: Seq<char>,
    username: Seq<char>,
    prefix: Seq<char>,
    enabled: bool,
) -> Option<MatchView<AdministrationCommandView>> {
    if after_prefix(text, prefix) is Some && message_ends(after_prefix(text, prefix)->0) {
        Some(
            MatchView {
                matched: prefix,
                raw: prefix + " "@ + username,
                command: AdministrationCommandView::SetCommandsEnabled { enabled, username },
            },
        )
    } else {
        None
    }
}

/// The command that a friend's text is.
pub open spec fn friend_command(text: Seq<char>, username: Seq<char>) -> Option<
    MatchView<AdministrationCommandView>,
> {
    if listener_mode(text) is Some {
        let mode = listener_mode(text)->0;
        Some(
            MatchView {
                matched: "监听模式"@,
                raw: "监听模式 "@ + mode_label(mode),
                command: AdministrationCommandView::ChatListenerMode(mode),
            },
        )
    } else if after_prefix(text, "禁用"@) is Some {
        switch_command(text, username, "禁用"@, false)
    } else if after_prefix(text, "启用"@) is Some {
        switch_command(text, username, "启用"@, true)
    } else {
        match after_prefix(text, "闲置退出"@) {
            Some(rest) => match idle_minutes(rest) {
                Some(minutes) => Some(
                    MatchView {
                        matched: "闲置退出"@,
                        raw: "闲置退出 "@ + decimal(minutes as nat),
                        command: AdministrationCommandView::IdleExit { minutes },
                    },
                ),
                None => None,
            },
            None => None,
        }
    }
}

/// The help that a text in the hall asks for, with the words it was found by.
pub open spec fn hall_help(text: Seq<char>) -> Option<(Seq<char>, AdministrationCommandView)> {
    if prefixed_argument(text, "娱乐帮助"@, false) is Some {
        Some(("娱乐帮助"@, AdministrationCommandView::EntertainmentHelp))
    } else if prefixed_argument(text, "帮助"@, false) is Some {
        Some(("帮助"@, AdministrationCommandView::Help))
    } else {
        None
    }
}

/// Whether a text asks for help with entertainment.
pub open spec fn asks_entertainment(payload: Seq<char>) -> bool {
    compact(payload) == "娱乐"@ || compact(payload) == "帮助"@
}

/// Whether a command is one of administration, by how it starts.
pub open spec fn claimed(envelope: EnvelopeView) -> bool {
    let text = envelope.command_text;
    match (envelope.prefix, envelope.authority) {
        (CommandPrefix::At, CommandAuthority::HallMember) => {
            ||| after_exact_prefix(text, "娱乐帮助"@) is Some
            ||| after_exact_prefix(text, "帮助"@) is Some
        },
        (CommandPrefix::At, CommandAuthority::Friend) => {
            ||| after_prefix(text, "监听模式"@) is Some
            ||| after_prefix(text, "禁用"@) is Some
            ||| after_prefix(text, "启用"@) is Some
            ||| after_prefix(text, "闲置退出"@) is Some
        },
        (CommandPrefix::Hash, CommandAuthority::HallMember) => asks_entertainment(text),
        _ => false,
    }
}

/// The command of administration that an envelope holds.
pub open spec fn chat_command(envelope: EnvelopeView) -> Option<
    MatchView<AdministrationCommandView>,
> {
    let text = envelope.command_text;
    if !claimed(envelope) {
        None
    } else {
        match (envelope.prefix, envelope.authority) {
            (CommandPrefix::At, CommandAuthority::HallMember) => match hall_help(text) {
                Some((matched, command)) => Some(MatchView { matched, raw: matched, command }),
                None => None,
            },
            (CommandPrefix::At, CommandAuthority::Friend) => friend_command(
                text,
                envelope.username,
            ),
            (CommandPrefix::Hash, CommandAuthority::HallMember) => Some(
                MatchView {
                    matched: "#"@,
                    raw: text,
                    command: AdministrationCommandView::EntertainmentHelp,
                },
            ),
            _ => None,
        }
    }
}

/// The minutes that are asked for behind the words for leaving when idle.
fn parse_idle_minutes(rest: &str) -> (r: Option<u32>)
    ensures
        r == idle_minutes(rest@),
{
    let chars = trim_leading(&to_chars(rest), &separator_chars());
    let rest = from_chars(chars.as_slice());
    if is_message_end(rest.as_str()) {
        return Some(30);
    }
    let n = count_digits(&chars);
    if n == 0 {
        return None;
    }
    let digits = slice(&chars, 0, n);
    assert(digits@ =~= chars@.take(n as int));
    let behind = slice(&chars, n, chars.len());
    assert(behind@ =~= chars@.skip(n as int));
    let suffix = strip_unit(trim_start(from_chars(behind.as_slice()).as_str()));
    if !is_command_boundary(leading_char(suffix.as_str())) {
        return None;
    }
    match parse_number(&digits, u32::MAX as u64) {
        Some(minutes) => if minutes < IDLE_EXIT_MIN_MINUTES as u64 {
            Some(IDLE_EXIT_MIN_MINUTES)
        } else {
            Some(minutes as u32)
        },
        None => None,
    }
}

/// A text without the word for minutes at its start.
fn strip_unit(suffix: String) -> (r: String)
    ensures
        r@ == without_unit(suffix@),
{
    match strip_exact_prefix(suffix.as_str(), "分钟") {
        Some(rest) => rest,
        None => match strip_exact_prefix(suffix.as_str(), "分") {
            Some(rest) => rest,
            None => suffix,
        },
    }
}

/// How many digits a text starts with.
fn count_digits(chars: &Vec<char>) -> (r: usize)
    ensures
        r == digits_at_start(chars@),
        r <= chars@.len(),
{
    let mut n: usize = 0;
    assert(chars@.skip(0) =~= chars@);
    while n < chars.len() && is_ascii_digit(chars[n])
        invariant
            n <= chars@.len(),
            digits_at_start(chars@) == n + digits_at_start(chars@.skip(n as int)),
        decreases chars@.len() - n,
    {
        assert(chars@.skip(n as int).skip(1) =~= chars@.skip(n + 1));
        n = n + 1;
    }
    n
}

/// How a command is carried out: as a task, or at once.
#[derive(Clone, Copy, Debug, PartialEq, Eq, Structural)]
pub enum AdministrationDispatch {
    FormalTask,
    ApplyCommandAvailabilityThenFormal { enabled: bool },
    ConfigureIdleExit { minutes: u32 },
    ChatListenerMode(ChatListenerModeCommand),
}

/// How a command is carried out.
pub open spec fn dispatched(command: AdministrationCommandView) -> AdministrationDispatch {
    match command {
        AdministrationCommandView::Help => AdministrationDispatch::FormalTask,
        AdministrationCommandView::EntertainmentHelp => AdministrationDispatch::FormalTask,
        AdministrationCommandView::SetCommandsEnabled { enabled, .. } =>
            AdministrationDispatch::ApplyCommandAvailabilityThenFormal { enabled },
        AdministrationCommandView::IdleExit { minutes } =>
            AdministrationDispatch::ConfigureIdleExit { minutes },
        AdministrationCommandView::ChatListenerMode(mode) =>
            AdministrationDispatch::ChatListenerMode(mode),
    }
}

/// What a command locks.
pub open spec fn lock_key_of(command: AdministrationCommandView) -> Seq<char> {
    match command {
        AdministrationCommandView::Help => "help"@,
        AdministrationCommandView::EntertainmentHelp => "entertainment_help"@,
        AdministrationCommandView::SetCommandsEnabled { enabled, .. } => if enabled {
            "enable_commands"@
        } else {
            "disable_commands"@
        },
        AdministrationCommandView::IdleExit { minutes } => "idle_exit:"@ + decimal(minutes as nat),
        AdministrationCommandView::ChatListenerMode(mode) => "chat_listener:"@ + mode_label(mode),
    }
}

/// Whether two commands ask for the same.
pub open spec fn same_command(a: AdministrationCommandView, b: AdministrationCommandView) -> bool {
    match (a, b) {
        (
            AdministrationCommandView::IdleExit { minutes: left },
            AdministrationCommandView::IdleExit { minutes: right },
        ) => left == right,
        (
            AdministrationCommandView::ChatListenerMode(left),
            AdministrationCommandView::ChatListenerMode(right),
        ) => left == right,
        _ => lock_key_of(a) == lock_key_of(b),
    }
}

impl AdministrationCommand {
    /// Whether a command is one of administration, by how it starts.
    pub fn claims_chat(envelope: &CommandEnvelope) -> (r: bool)
        ensures
            r == claimed(envelope@),
    {
        let text = envelope.command_text.as_str();
        match (envelope.prefix, envelope.authority) {
            (CommandPrefix::At, CommandAuthority::HallMember) => strip_exact_prefix(
                text,
                "娱乐帮助",
            ).is_some() || strip_exact_prefix(text, "帮助").is_some(),
            (CommandPrefix::At, CommandAuthority::Friend) => strip_ascii_case_prefix(
                text,
                "监听模式",
            ).is_some() || strip_ascii_case_prefix(text, "禁用").is_some()
                || strip_ascii_case_prefix(text, "启用").is_some() || strip_ascii_case_prefix(
                text,
                "闲置退出",
            ).is_some(),
            (CommandPrefix::Hash, CommandAuthority::HallMember) => {
                let payload = compact_command(text);
                str_equal(payload.as_str(), "娱乐") || str_equal(payload.as_str(), "帮助")
            },
            _ => false,
        }
    }

    /// The command of administration that an envelope holds.
    pub fn parse_chat(envelope: &CommandEnvelope) -> (r: Option<FeatureCommandMatch<Self>>)
        ensures
            match r {
                Some(found) => chat_command(envelope@) == Some(
                    MatchView {
                        matched: found.matched@,
                        raw: found.raw@,
                        command: found.command@,
                    },
                ),
                None => chat_command(envelope@) is None,
            },
    {
        if !Self::claims_chat(envelope) {
            return None;
        }
        let text = envelope.command_text.as_str();
        match (envelope.prefix, envelope.authority) {
            (CommandPrefix::At, CommandAuthority::HallMember) => match Self::parse_hall(text) {
                Some(parsed) => {
                    if is_empty_text(parsed.argument.as_str()) {
                        Some(
                            FeatureCommandMatch::new(
                                parsed.matched,
                                parsed.matched,
                                parsed.command,
                            ),
                        )
                    } else {
                        let raw = cat3(parsed.matched, " ", parsed.argument.as_str());
                        Some(
                            FeatureCommandMatch::new(parsed.matched, raw.as_str(), parsed.command),
                        )
                    }
                },
                None => None,
            },
            (CommandPrefix::At, CommandAuthority::Friend) => match Self::parse_friend(
                text,
                envelope.username.as_str(),
            ) {
                Some(parsed) => Some(
                    FeatureCommandMatch::new(parsed.matched, parsed.raw.as_str(), parsed.command),
                ),
                None => None,
            },
            (CommandPrefix::Hash, CommandAuthority::HallMember) => {
                match Self::parse_entertainment_start(text) {
                    Some(command) => Some(FeatureCommandMatch::new("#", text, command)),
                    None => None,
                }
            },
            _ => None,
        }
    }

    /// How this command is carried out.
    pub fn dispatch(&self) -> (r: AdministrationDispatch)
        ensures
            r == dispatched(self@),
    {
        match self {
            AdministrationCommand::Help => AdministrationDispatch::FormalTask,
            AdministrationCommand::EntertainmentHelp => AdministrationDispatch::FormalTask,
            AdministrationCommand::SetCommandsEnabled { enabled, .. } =>
                AdministrationDispatch::ApplyCommandAvailabilityThenFormal { enabled: *enabled },
            AdministrationCommand::IdleExit { minutes } =>
                AdministrationDispatch::ConfigureIdleExit { minutes: *minutes },
            AdministrationCommand::ChatListenerMode(mode) =>
                AdministrationDispatch::ChatListenerMode(*mode),
        }
    }

    /// The help that a text in the hall asks for.
    pub fn parse_hall(text: &str) -> (r: Option<CommandSyntax<Self>>)
        ensures
            match r {
                Some(parsed) => hall_help(text@) == Some((parsed.matched@, parsed.command@))
                    && parsed.argument@.len() == 0,
                None => hall_help(text@) is None,
            },
    {
        if let Some(argument) = parse_prefixed_command(text, "娱乐帮助", false) {
            return Some(
                CommandSyntax {
                    matched: "娱乐帮助",
                    argument,
                    command: AdministrationCommand::EntertainmentHelp,
                },
            );
        }
        if let Some(argument) = parse_prefixed_command(text, "帮助", false) {
            return Some(
                CommandSyntax { matched: "帮助", argument, command: AdministrationCommand::Help },
            );
        }
        None
    }

    /// The help with entertainment, where a text asks for it.
    pub fn parse_entertainment_start(payload: &str) -> (r: Option<Self>)
        ensures
            match r {
                Some(command) => asks_entertainment(payload@) && command@
                    == AdministrationCommandView::EntertainmentHelp,
                None => !asks_entertainment(payload@),
            },
    {
        let payload = compact_command(payload);
        if str_equal(payload.as_str(), "娱乐") || str_equal(payload.as_str(), "帮助") {
            Some(AdministrationCommand::EntertainmentHelp)
        } else {
            None
        }
    }

    /// The command that a friend's text is.
    pub fn parse_friend(text: &str, username: &str) -> (r: Option<FriendAdministrationMatch>)
        ensures
            match r {
                Some(found) => friend_command(text@, username@) == Some(found@),
                None => friend_command(text@, username@) is None,
            },
    {
        proof {
            reveal_strlit("监听模式");
            reveal_strlit("监听模式 ");
            reveal_strlit("闲置退出 ");
            reveal_strlit("闲置退出 30");
        }
        if let Some(parsed) = ChatListenerModeCommand::parse(text) {
            return Some(
                FriendAdministrationMatch {
                    matched: parsed.matched,
                    raw: cat2("监听模式 ", parsed.command.label()),
                    command: AdministrationCommand::ChatListenerMode(parsed.command),
                },
            );
        }
        if let Some(rest) = strip_ascii_case_prefix(text, "禁用") {
            return Self::switch("禁用", false, rest.as_str(), username);
        }
        if let Some(rest) = strip_ascii_case_prefix(text, "启用") {
            return Self::switch("启用", true, rest.as_str(), username);
        }
        match strip_ascii_case_prefix(text, "闲置退出") {
            Some(rest) => match parse_idle_minutes(rest.as_str()) {
                Some(minutes) => Some(
                    FriendAdministrationMatch {
                        matched: "闲置退出",
                        raw: cat2("闲置退出 ", format_u64(minutes as u64).as_str()),
                        command: AdministrationCommand::IdleExit { minutes },
                    },
                ),
                None => None,
            },
            None => None,
        }
    }

    /// The command to switch commands on or off, where nothing follows its word.
    fn switch(prefix: &'static str, enabled: bool, rest: &str, username: &str) -> (r: Option<
        FriendAdministrationMatch,
    >)
        ensures
            match r {
                Some(found) => message_ends(rest@) && found@ == (MatchView {
                    matched: prefix@,
                    raw: prefix@ + " "@ + username@,
                    command: AdministrationCommandView::SetCommandsEnabled {
                        enabled,
                        username: username@,
                    },
                }),
                None => !message_ends(rest@),
            },
    {
        if is_message_end(rest) {
            Some(
                FriendAdministrationMatch {
                    matched: prefix,
                    raw: cat3(prefix, " ", username),
                    command: AdministrationCommand::SetCommandsEnabled {
                        enabled,
                        username: owned(username),
                    },
                },
            )
        } else {
            None
        }
    }

    /// What this command locks.
    pub fn lock_key(&self) -> (r: String)
        ensures
            r@ == lock_key_of(self@),
    {
        match self {
            AdministrationCommand::Help => owned("help"),
            AdministrationCommand::EntertainmentHelp => owned("entertainment_help"),
            AdministrationCommand::SetCommandsEnabled { enabled, .. } => if *enabled {
                owned("enable_commands")
            } else {
                owned("disable_commands")
            },
            AdministrationCommand::IdleExit { minutes } => cat2(
                "idle_exit:",
                format_u64(*minutes as u64).as_str(),
            ),
            AdministrationCommand::ChatListenerMode(mode) => cat2("chat_listener:", mode.label()),
        }
    }

    /// Whether two commands ask for the same.
    pub fn same_request(&self, other: &Self) -> (r: bool)
        ensures
            r == same_command(self@, other@),
    {
        match (self, other) {
            (
                AdministrationCommand::IdleExit { minutes: left },
                AdministrationCommand::IdleExit { minutes: right },
            ) => *left == *right,
            (
                AdministrationCommand::ChatListenerMode(left),
                AdministrationCommand::ChatListenerMode(right),
            ) => *left == *right,
            _ => str_equal(self.lock_key().as_str(), other.lock_key().as_str()),
        }
    }
}

/// However a friend asks the assistant to leave when idle, it is not asked to
/// leave sooner than the shortest time.
pub proof fn law_idle_exit_waits(text: Seq<char>, username: Seq<char>, minutes: u32)
    requires
        friend_command(text, username) is Some,
        friend_command(text, username)->0.command == (AdministrationCommandView::IdleExit {
            minutes,
        }),
    ensures
        minutes >= IDLE_EXIT_MIN_MINUTES,
{
}

/// Two commands ask for the same exactly where they lock the same.
pub proof fn law_same_request_same_lock(a: AdministrationCommandView, b: AdministrationCommandView)
    ensures
        same_command(a, b) <==> lock_key_of(a) == lock_key_of(b),
{
    let idle = "idle_exit:"@;
    let listener = "chat_listener:"@;
    match (a, b) {
        (
            AdministrationCommandView::IdleExit { minutes: left },
            AdministrationCommandView::IdleExit { minutes: right },
        ) => {
            if lock_key_of(a) == lock_key_of(b) {
                assert(decimal(left as nat) =~= lock_key_of(a).skip(idle.len() as int));
                assert(decimal(right as nat) =~= lock_key_of(b).skip(idle.len() as int));
                lemma_decimal_tells(left as nat, right as nat);
            }
        },
        (
            AdministrationCommandView::ChatListenerMode(left),
            AdministrationCommandView::ChatListenerMode(right),
        ) => {
            if lock_key_of(a) == lock_key_of(b) {
                assert(mode_label(left) =~= lock_key_of(a).skip(listener.len() as int));
                assert(mode_label(right) =~= lock_key_of(b).skip(listener.len() as int));
                reveal_strlit("一级");
                reveal_strlit("二级");
                reveal_strlit("状态");
                assert(mode_label(left)[0] == mode_label(right)[0]);
            }
        },
        _ => {},
    }
}

// ---------------------------------------------------------------------------
// What friends ask for
// ---------------------------------------------------------------------------
/// Where a text starts otherwise than a word without letters from A to Z, it is not
/// that word's command.
proof fn lemma_other_word(text: Seq<char>, word: Seq<char>)
    requires
        text.len() > 0,
        word.len() > 0,
        text[0] != word[0],
        !('A' <= text[0] <= 'Z'),
        !('A' <= word[0] <= 'Z'),
    ensures
        after_prefix(text, word) is None,
{
    if word.len() <= text.len() {
        let head = text.take(word.len() as int);
        law_lowered(head, word, 0);
        law_lowered(word, head, 0);
        assert(head[0] == text[0]);
        assert(lowered(head)[0] != lowered(word)[0]);
    }
}

/// A text that starts with a word is that word's command, with the rest behind it.
proof fn lemma_own_word(word: Seq<char>, rest: Seq<char>)
    ensures
        after_prefix(word + rest, word) == Some(rest),
{
    assert((word + rest).take(word.len() as int) =~= word);
    assert((word + rest).skip(word.len() as int) =~= rest);
}

proof fn lemma_words_differ()
    ensures
        "监听模式"@.len() == 4,
        "禁用"@.len() == 2,
        "启用"@.len() == 2,
        "闲置退出"@.len() == 4,
        "监听模式"@[0] == '监',
        "禁用"@[0] == '禁',
        "启用"@[0] == '启',
        "闲置退出"@[0] == '闲',
{
    reveal_strlit("监听模式");
    reveal_strlit("禁用");
    reveal_strlit("启用");
    reveal_strlit("闲置退出");
}

/// A friend who says `禁用` switches commands off, and one who says `启用` switches
/// them on, under their own name, with nothing behind the word but brackets that end
/// the message; with anything else behind it the word asks for nothing.
pub proof fn law_switching(rest: Seq<char>, username: Seq<char>)
    ensures
        (rest.len() == 0 || rest[0] == ']' || rest[0] == '】') ==> {
            &&& friend_command("禁用"@ + rest, username) matches Some(off)
            &&& off.command == (AdministrationCommandView::SetCommandsEnabled {
                enabled: false,
                username,
            })
            &&& off.matched == "禁用"@
            &&& friend_command("启用"@ + rest, username) matches Some(on)
            &&& on.command == (AdministrationCommandView::SetCommandsEnabled {
                enabled: true,
                username,
            })
            &&& on.matched == "启用"@
            &&& lock_key_of(off.command) != lock_key_of(on.command)
            &&& !same_command(off.command, on.command)
            &&& dispatched(off.command)
                == (AdministrationDispatch::ApplyCommandAvailabilityThenFormal { enabled: false })
            &&& dispatched(on.command)
                == (AdministrationDispatch::ApplyCommandAvailabilityThenFormal { enabled: true })
        },
        rest.len() > 0 && rest[0] != ']' && rest[0] != '】' ==> friend_command(
            "禁用"@ + rest,
            username,
        ) is None && friend_command("启用"@ + rest, username) is None,
{
    lemma_words_differ();
    let off = "禁用"@ + rest;
    let on = "启用"@ + rest;
    assert(off[0] == '禁' && on[0] == '启');
    lemma_own_word("禁用"@, rest);
    lemma_own_word("启用"@, rest);
    lemma_other_word(off, "监听模式"@);
    lemma_other_word(on, "监听模式"@);
    lemma_other_word(on, "禁用"@);
    reveal_strlit("enable_commands");
    reveal_strlit("disable_commands");
    assert("enable_commands"@[0] == 'e' && "disable_commands"@[0] == 'd');
}

/// A friend who asks for a way to listen gets that one: the first, the second, or
/// how it stands; and each locks something of its own.
pub proof fn law_listening(gap: Seq<char>, username: Seq<char>)
    requires
        all_of(gap, separators()),
    ensures
        friend_command("监听模式"@ + (gap + "一级"@), username) matches Some(found)
            && found.command == AdministrationCommandView::ChatListenerMode(
            ChatListenerModeCommand::Primary,
        ),
        friend_command("监听模式"@ + (gap + "二级"@), username) matches Some(found)
            && found.command == AdministrationCommandView::ChatListenerMode(
            ChatListenerModeCommand::Secondary,
        ),
        friend_command("监听模式"@ + (gap + "状态"@), username) matches Some(found)
            && found.command == AdministrationCommandView::ChatListenerMode(
            ChatListenerModeCommand::Status,
        ),
{
    lemma_words_differ();
    reveal_strlit("一级");
    reveal_strlit("二级");
    reveal_strlit("状态");
    lemma_mode_word(gap, "一级"@);
    lemma_mode_word(gap, "二级"@);
    lemma_mode_word(gap, "状态"@);
    assert("一级"@[0] == '一' && "二级"@[0] == '二' && "状态"@[0] == '状');
}

proof fn lemma_mode_word(gap: Seq<char>, word: Seq<char>)
    requires
        all_of(gap, separators()),
        word.len() > 0,
        !separators().contains(word[0]),
        !closers().contains(word.last()),
        !whitespace(word[0]),
        !whitespace(word.last()),
        word[0] != '/',
    ensures
        prefixed_argument("监听模式"@ + (gap + word), "监听模式"@, true) == Some(word),
{
    let rest = gap + word;
    lemma_own_word("监听模式"@, rest);
    law_without_leading(gap, word, separators());
    assert(word + Seq::<char>::empty() =~= word);
    law_without_trailing(word, Seq::empty(), closers());
    lemma_trim_nothing(word);
    assert(argument_of(rest) == word);
    if gap.len() > 0 {
        assert(rest[0] == gap[0]);
        assert(separators().contains(gap[0]));
    } else {
        assert(rest[0] == word[0]);
    }
}

/// A friend who asks that the assistant leave when idle says after how many minutes:
/// that many it is, but never fewer than fifteen; and thirty where nothing is said.
pub proof fn law_leaving_when_idle(gap: Seq<char>, minutes: nat, username: Seq<char>)
    requires
        all_of(gap, separators()),
    ensures
        friend_command("闲置退出"@ + gap, username) matches Some(found) && found.command == (
        AdministrationCommandView::IdleExit { minutes: 30 }),
        15 <= minutes <= u32::MAX ==> (friend_command(
            "闲置退出"@ + (gap + decimal(minutes)),
            username,
        ) matches Some(found) && found.command == (AdministrationCommandView::IdleExit {
            minutes: minutes as u32,
        })),
        minutes < 15 ==> (friend_command("闲置退出"@ + (gap + decimal(minutes)), username)
            matches Some(found) && found.command == (AdministrationCommandView::IdleExit {
            minutes: 15,
        })),
        15 <= minutes <= u32::MAX ==> (friend_command(
            "闲置退出"@ + (gap + (decimal(minutes) + "分钟"@)),
            username,
        ) matches Some(found) && found.command == (AdministrationCommandView::IdleExit {
            minutes: minutes as u32,
        })),
        minutes > u32::MAX ==> friend_command(
            "闲置退出"@ + (gap + decimal(minutes)),
            username,
        ) is None,
{
    lemma_words_differ();
    let digits = decimal(minutes);
    reveal_strlit("分钟");
    reveal_strlit("分");
    lemma_decimal_digits(minutes);
    law_number_is_read(minutes, u32::MAX as int);
    assert(ascii_digit(digits[0]));
    assert(gap + Seq::<char>::empty() =~= gap);
    law_without_leading(gap, Seq::empty(), separators());
    law_without_leading(gap, digits, separators());
    assert((digits + "分钟"@)[0] == digits[0]);
    law_without_leading(gap, digits + "分钟"@, separators());
    lemma_digits_at_start(digits, Seq::empty());
    assert(digits + Seq::<char>::empty() =~= digits);
    assert("分钟"@[0] == '分');
    lemma_digits_at_start(digits, "分钟"@);
    let n = digits.len() as int;
    assert(digits.skip(n) =~= Seq::empty());
    assert(digits.take(n) =~= digits);
    assert((digits + "分钟"@).skip(n) =~= "分钟"@);
    assert((digits + "分钟"@).take(n) =~= digits);
    assert("分钟"@.subrange(0, 2) =~= "分钟"@);
    assert("分钟"@.skip(2) =~= Seq::empty());
    assert forall|text: Seq<char>| text.len() > 0 && text[0] == '闲' implies {
        &&& #[trigger] after_prefix(text, "监听模式"@) is None
        &&& after_prefix(text, "禁用"@) is None
        &&& after_prefix(text, "启用"@) is None
    } by {
        lemma_other_word(text, "监听模式"@);
        lemma_other_word(text, "禁用"@);
        lemma_other_word(text, "启用"@);
    }
    let bare = "闲置退出"@ + gap;
    let plain = "闲置退出"@ + (gap + digits);
    let unit = "闲置退出"@ + (gap + (digits + "分钟"@));
    assert(bare[0] == '闲' && plain[0] == '闲' && unit[0] == '闲');
    assert(after_prefix(bare, "监听模式"@) is None);
    assert(after_prefix(plain, "监听模式"@) is None);
    assert(after_prefix(unit, "监听模式"@) is None);
    lemma_own_word("闲置退出"@, gap);
    lemma_own_word("闲置退出"@, gap + digits);
    lemma_own_word("闲置退出"@, gap + (digits + "分钟"@));
    assert(trimmed_start("分钟"@) == "分钟"@);
    assert(trimmed_start(Seq::<char>::empty()) == Seq::<char>::empty());
    assert(after_exact_prefix(Seq::<char>::empty(), "分钟"@) is None);
    assert(after_exact_prefix(Seq::<char>::empty(), "分"@) is None);
}

proof fn lemma_digits_at_start(digits: Seq<char>, rest: Seq<char>)
    requires
        all_digits(digits),
        rest.len() > 0 ==> !ascii_digit(rest[0]),
    ensures
        digits_at_start(digits + rest) == digits.len(),
    decreases digits.len(),
{
    let s = digits + rest;
    if digits.len() == 0 {
        assert(s =~= rest);
    } else {
        assert(ascii_digit(digits[0]));
        assert(s[0] == digits[0]);
        assert(s.skip(1) =~= digits.skip(1) + rest);
        assert forall|i: int| 0 <= i < digits.skip(1).len() implies ascii_digit(
            #[trigger] digits.skip(1)[i],
        ) by {
            assert(ascii_digit(digits[i + 1]));
        }
        lemma_digits_at_start(digits.skip(1), rest);
    }
}

/// Only friends administer: what is said in the hall asks for help and for nothing
/// else, and a friend's `#` for nothing at all.
pub proof fn law_only_friends_administer(envelope: EnvelopeView)
    ensures
        envelope.authority == CommandAuthority::HallMember ==> (chat_command(envelope)
            matches Some(found) ==> found.command == AdministrationCommandView::Help
            || found.command == AdministrationCommandView::EntertainmentHelp),
        envelope.authority == CommandAuthority::Friend && envelope.prefix == CommandPrefix::Hash
            ==> chat_command(envelope) is None,
        envelope.authority == CommandAuthority::Friend && envelope.prefix == CommandPrefix::At
            && friend_command(envelope.command_text, envelope.username) is Some ==> chat_command(
            envelope,
        ) == friend_command(envelope.command_text, envelope.username),
{
}

/// In the hall `@帮助` asks for help and `@娱乐帮助` for help with entertainment, and so
/// do `#娱乐` and `#帮助`.
pub proof fn law_asking_for_help(envelope: EnvelopeView)
    requires
        envelope.authority == CommandAuthority::HallMember,
    ensures
        envelope.prefix == CommandPrefix::At && envelope.command_text == "帮助"@ ==> (
        chat_command(envelope) matches Some(found) && found.command
            == AdministrationCommandView::Help),
        envelope.prefix == CommandPrefix::At && envelope.command_text == "娱乐帮助"@ ==> (
        chat_command(envelope) matches Some(found) && found.command
            == AdministrationCommandView::EntertainmentHelp),
        envelope.prefix == CommandPrefix::Hash && (envelope.command_text == "娱乐"@
            || envelope.command_text == "帮助"@) ==> (chat_command(envelope) matches Some(found)
            && found.command == AdministrationCommandView::EntertainmentHelp),
{
    reveal_strlit("帮助");
    reveal_strlit("娱乐帮助");
    reveal_strlit("娱乐");
    let text = envelope.command_text;
    assert(text + Seq::<char>::empty() =~= text);
    lemma_own_word(text, Seq::empty());
    assert("帮助"@[0] == '帮' && "娱乐帮助"@[0] == '娱');
    if text == "帮助"@ {
        lemma_other_word(text, "娱乐帮助"@);
        assert(text.subrange(0, 2) =~= text);
    }
    if text == "娱乐帮助"@ {
        assert(text.subrange(0, 4) =~= text);
    }
    let nothing = Seq::<char>::empty();
    assert(argument_of(nothing) =~= nothing);
    reveal_with_fuel(compact, 3);
    assert(compact("娱乐"@) =~= "娱乐"@);
    assert(compact("帮助"@) =~= "帮助"@);
}

/// Each command locks what asks for the same lock, and two that ask for different
/// things do not: leaving after a different time, listening another way, another
/// help.
pub proof fn law_different_requests(a: u32, b: u32)
    ensures
        lock_key_of(AdministrationCommandView::IdleExit { minutes: a }) == lock_key_of(
            AdministrationCommandView::IdleExit { minutes: b },
        ) <==> a == b,
        lock_key_of(AdministrationCommandView::Help) != lock_key_of(
            AdministrationCommandView::EntertainmentHelp,
        ),
        dispatched(AdministrationCommandView::IdleExit { minutes: a })
            == (AdministrationDispatch::ConfigureIdleExit { minutes: a }),
        dispatched(AdministrationCommandView::Help) == AdministrationDispatch::FormalTask,
        dispatched(AdministrationCommandView::EntertainmentHelp)
            == AdministrationDispatch::FormalTask,
        forall|mode: ChatListenerModeCommand| #[trigger]
            dispatched(AdministrationCommandView::ChatListenerMode(mode))
                == AdministrationDispatch::ChatListenerMode(mode),
{
    law_same_request_same_lock(
        AdministrationCommandView::IdleExit { minutes: a },
        AdministrationCommandView::IdleExit { minutes: b },
    );
    reveal_strlit("help");
    reveal_strlit("entertainment_help");
    assert("help"@[0] == 'h' && "entertainment_help"@[0] == 'e');
}

/// What is kept of a friend's command is the word that it was found by and, behind it, who
/// gave it, the mode or the minutes; and it is given in the name of who said it.
pub proof fn law_what_is_kept_of_a_command(text: Seq<char>, username: Seq<char>)
    ensures
        friend_command(text, username) matches Some(found) ==> (match found.command {
            AdministrationCommandView::SetCommandsEnabled { enabled, username: who } => {
                &&& who == username
                &&& enabled ==> found.matched == "启用"@ && found.raw == "启用"@ + " "@ + username
                &&& !enabled ==> found.matched == "禁用"@ && found.raw == "禁用"@ + " "@ + username
            },
            AdministrationCommandView::ChatListenerMode(mode) => {
                &&& found.matched == "监听模式"@
                &&& mode == ChatListenerModeCommand::Primary ==> found.raw == "监听模式 "@ + "一级"@
                &&& mode == ChatListenerModeCommand::Secondary ==> found.raw == "监听模式 "@ + "二级"@
                &&& mode == ChatListenerModeCommand::Status ==> found.raw == "监听模式 "@ + "状态"@
            },
            AdministrationCommandView::IdleExit { minutes } => {
                &&& found.matched == "闲置退出"@
                &&& found.raw == "闲置退出 "@ + decimal(minutes as nat)
                &&& minutes >= 15
            },
            _ => false,
        }),
{
}

/// What is kept of a question for help is the word that it was found by, or the text
/// behind the hash sign; with anything more it is no such question.
pub proof fn law_what_is_kept_of_a_question(
    envelope: EnvelopeView,
    before: Seq<char>,
    argument: Seq<char>,
)
    requires
        envelope.authority == CommandAuthority::HallMember,
        crate::chat_text::gap(before),
        crate::chat_text::clean(argument),
        argument.len() > 0,
        before.len() > 0,
    ensures
        envelope.prefix == CommandPrefix::At ==> (chat_command(envelope) matches Some(found) ==> {
            &&& found.raw == found.matched
            &&& found.command == AdministrationCommandView::Help ==> found.matched == "帮助"@
            &&& found.command == AdministrationCommandView::EntertainmentHelp ==> found.matched
                == "娱乐帮助"@
        }),
        envelope.prefix == CommandPrefix::Hash ==> (chat_command(envelope) matches Some(found)
            ==> found.raw == envelope.command_text && found.matched == "#"@),
        envelope.prefix == CommandPrefix::At && envelope.command_text == "帮助"@ + (before
            + argument) ==> chat_command(envelope) is None,
        envelope.prefix == CommandPrefix::Hash && compact(envelope.command_text) != "娱乐"@
            && compact(envelope.command_text) != "帮助"@ ==> chat_command(envelope) is None,
{
    reveal_strlit("帮助");
    reveal_strlit("娱乐帮助");
    assert("帮助"@[0] == '帮' && "娱乐帮助"@[0] == '娱');
    let none = Seq::<char>::empty();
    assert(argument + none =~= argument);
    crate::chat_text::law_command_and_argument("帮助"@, "帮助"@, before, argument, none);
    if envelope.command_text == "帮助"@ + (before + argument) {
        assert(envelope.command_text[0] == '帮');
        lemma_other_word(envelope.command_text, "娱乐帮助"@);
    }
}

/// A mode that there is not is no command.
pub proof fn law_other_modes(before: Seq<char>, word: Seq<char>)
    requires
        crate::chat_text::gap(before),
        crate::chat_text::clean(word),
        word.len() > 0,
        before.len() == 0 ==> word[0] != '/',
        word != "一级"@,
        word != "二级"@,
        word != "状态"@,
    ensures
        listener_mode("监听模式"@ + (before + word)) is None,
{
    let none = Seq::<char>::empty();
    assert(word + none =~= word);
    crate::chat_text::law_command_and_argument("监听模式"@, "监听模式"@, before, word, none);
}

/// Switching commands, leaving when idle, listening and the helps lock apart from each
/// other.
pub proof fn law_kinds_lock_apart(
    enabled: bool,
    username: Seq<char>,
    minutes: u32,
    mode: ChatListenerModeCommand,
)
    ensures
        ({
            let switching = lock_key_of(
                AdministrationCommandView::SetCommandsEnabled { enabled, username },
            );
            let leaving = lock_key_of(AdministrationCommandView::IdleExit { minutes });
            let listening = lock_key_of(AdministrationCommandView::ChatListenerMode(mode));
            let help = lock_key_of(AdministrationCommandView::Help);
            let games = lock_key_of(AdministrationCommandView::EntertainmentHelp);
            &&& switching != leaving
            &&& switching != listening
            &&& switching != help
            &&& switching != games
            &&& leaving != listening
            &&& leaving != help
            &&& leaving != games
            &&& listening != help
            &&& listening != games
            &&& help != games
        }),
{
    reveal_strlit("help");
    reveal_strlit("entertainment_help");
    reveal_strlit("enable_commands");
    reveal_strlit("disable_commands");
    reveal_strlit("idle_exit:");
    reveal_strlit("chat_listener:");
    assert("help"@[0] == 'h');
    assert("entertainment_help"@[0] == 'e' && "entertainment_help"@[2] == 't');
    assert("enable_commands"@[0] == 'e' && "enable_commands"@[2] == 'a');
    assert("disable_commands"@[0] == 'd');
    assert(("idle_exit:"@ + decimal(minutes as nat))[0] == 'i');
    assert(("chat_listener:"@ + mode_label(mode))[0] == 'c');
}

/// A command is one of administration, by how it starts, exactly where it starts with one
/// of its words and comes from where that word is heeded.
pub proof fn law_what_is_claimed(envelope: EnvelopeView)
    ensures
        claimed(envelope) && envelope.authority == CommandAuthority::Friend ==> envelope.prefix
            == CommandPrefix::At,
        chat_command(envelope) is Some ==> claimed(envelope),
        envelope.prefix == CommandPrefix::At && envelope.authority == CommandAuthority::Friend ==> (
        claimed(envelope) <==> after_prefix(envelope.command_text, "监听模式"@) is Some
            || after_prefix(envelope.command_text, "禁用"@) is Some || after_prefix(
            envelope.command_text,
            "启用"@,
        ) is Some || after_prefix(envelope.command_text, "闲置退出"@) is Some),
        envelope.prefix == CommandPrefix::At && envelope.authority
            == CommandAuthority::HallMember ==> (claimed(envelope) <==> after_exact_prefix(
            envelope.command_text,
            "娱乐帮助"@,
        ) is Some || after_exact_prefix(envelope.command_text, "帮助"@) is Some),
{
}

/// A unit may stand behind the minutes, with space between: minutes in either word.
pub proof fn law_minutes_with_a_unit(
    gap: Seq<char>,
    minutes: nat,
    space: Seq<char>,
    unit: Seq<char>,
    username: Seq<char>,
)
    requires
        all_of(gap, separators()),
        15 <= minutes <= u32::MAX,
        all_whitespace(space),
        unit == "分钟"@ || unit == "分"@,
    ensures
        friend_command("闲置退出"@ + (gap + (decimal(minutes) + (space + unit))), username)
            matches Some(found) && found.command == (AdministrationCommandView::IdleExit {
            minutes: minutes as u32,
        }),
{
    lemma_words_differ();
    reveal_strlit("分钟");
    reveal_strlit("分");
    let digits = decimal(minutes);
    let suffix = space + unit;
    lemma_decimal_digits(minutes);
    law_number_is_read(minutes, u32::MAX as int);
    assert(ascii_digit(digits[0]));
    assert((digits + suffix)[0] == digits[0]);
    law_without_leading(gap, digits + suffix, separators());
    if space.len() > 0 {
        assert(whitespace(space[0]));
        assert(suffix[0] == space[0]);
    } else {
        assert(suffix =~= unit);
    }
    assert("分钟"@[0] == '分' && "分"@[0] == '分');
    assert(!ascii_digit(suffix[0]));
    lemma_digits_at_start(digits, suffix);
    let n = digits.len() as int;
    assert((digits + suffix).skip(n) =~= suffix);
    assert((digits + suffix).take(n) =~= digits);
    assert("分钟"@.last() == '钟' && "分"@.last() == '分');
    law_trim(space, unit, Seq::empty());
    assert("分钟"@.subrange(0, 2) =~= "分钟"@);
    assert("分"@.subrange(0, 1) =~= "分"@);
    assert("分钟"@.skip(2) =~= Seq::empty());
    assert("分"@.skip(1) =~= Seq::empty());
    let whole = "闲置退出"@ + (gap + (digits + suffix));
    assert(whole[0] == '闲');
    lemma_other_word(whole, "监听模式"@);
    lemma_other_word(whole, "禁用"@);
    lemma_other_word(whole, "启用"@);
    lemma_own_word("闲置退出"@, gap + (digits + suffix));
    assert(after_exact_prefix(unit, "分钟"@) == (if unit == "分钟"@ {
        Some(Seq::<char>::empty())
    } else {
        None
    }));
}

} // verus!
