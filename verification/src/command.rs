//! Commands on their way from chat to the feature that carries them out.
use vstd::prelude::*;
use crate::administration::AdministrationCommand;
use crate::card_games::LandlordCommand;
use crate::chat_text::after_exact_prefix;
use crate::chat_text::brackets;
use crate::chat_text::closer_chars;
use crate::chat_text::closers;
use crate::chat_text::{lemma_gap, lemma_whitespace_apart, lemma_whole_prefix};
use crate::chat_text::strip_exact_prefix;
use crate::config::checks::is_empty_text;
use crate::config::settings::blank;
use crate::config::settings::is_blank;
use crate::custom_workflow::calling::workflow_lock_key;
use crate::custom_workflow::calling::CustomWorkflowCommand;
use crate::hall::HallCommand;
use crate::identity::IdentityRole;
use crate::scan::law_without_trailing;
use crate::scan::trim_trailing;
use crate::scan::without_trailing;
use crate::text::cat2;
use crate::text::from_chars;
use crate::text::{all_whitespace, law_trim, whitespace};
use crate::text::owned;
use crate::text::str_equal;
use crate::text::to_chars;
use crate::text::trim;
use crate::text::trim_end;
use crate::text::trim_start;
use crate::text::{trimmed, trimmed_end, trimmed_start};

verus! {

/// Where a command comes from: the hall, or a friend in private.
#[derive(Clone, Copy, Debug, PartialEq, Eq, Structural)]
pub enum CommandAuthority {
    HallMember,
    Friend,
}

/// What a command starts with: `@` for functions, `#` for entertainment.
#[derive(Clone, Copy, Debug, PartialEq, Eq, Structural)]
pub enum CommandPrefix {
    At,
    Hash,
}

/// Where a command was seen. The time is in nanoseconds from a fixed moment.
#[derive(Clone, Copy, Debug, PartialEq, Eq, Structural)]
pub struct CommandObservation {
    pub frame_id: Option<u64>,
    pub captured_at: Option<u128>,
    pub message_id: Option<u64>,
}

impl Default for CommandObservation {
    fn default() -> (r: Self)
        ensures
            r == (CommandObservation { frame_id: None, captured_at: None, message_id: None }),
    {
        CommandObservation { frame_id: None, captured_at: None, message_id: None }
    }
}

/// A command as it was read from chat, before a feature takes it.
#[derive(Debug)]
pub struct CommandEnvelope {
    pub original_text: String,
    pub user_command: String,
    pub command_text: String,
    pub message_type: String,
    pub username: String,
    pub prefix: CommandPrefix,
    pub authority: CommandAuthority,
    pub observation: CommandObservation,
}

/// A command as it was read from chat, as plain values.
#[verifier::ext_equal]
pub struct EnvelopeView {
    pub original_text: Seq<char>,
    pub user_command: Seq<char>,
    pub command_text: Seq<char>,
    pub message_type: Seq<char>,
    pub username: Seq<char>,
    pub prefix: CommandPrefix,
    pub authority: CommandAuthority,
    pub observation: CommandObservation,
}

impl View for CommandEnvelope {
    type V = EnvelopeView;

    open spec fn view(&self) -> EnvelopeView {
        EnvelopeView {
            original_text: self.original_text@,
            user_command: self.user_command@,
            command_text: self.command_text@,
            message_type: self.message_type@,
            username: self.username@,
            prefix: self.prefix,
            authority: self.authority,
            observation: self.observation,
        }
    }
}

/// Where messages of a type come from.
pub open spec fn authority_of(message_type: Seq<char>) -> Option<CommandAuthority> {
    if message_type == "blue"@ {
        Some(CommandAuthority::HallMember)
    } else if message_type == "pink"@ {
        Some(CommandAuthority::Friend)
    } else {
        None
    }
}

/// What messages from a place are marked with.
pub open spec fn type_of(authority: CommandAuthority) -> Seq<char> {
    match authority {
        CommandAuthority::HallMember => "blue"@,
        CommandAuthority::Friend => "pink"@,
    }
}

/// A command without whitespace around it and without brackets at its end.
pub open spec fn cleaned_command(text: Seq<char>) -> Seq<char> {
    trimmed_end(without_trailing(trimmed(text), closers()))
}

/// What a command starts with, and what follows.
pub open spec fn prefix_and_rest(command: Seq<char>) -> Option<(CommandPrefix, Seq<char>)> {
    match after_exact_prefix(command, "@"@) {
        Some(rest) => Some((CommandPrefix::At, rest)),
        None => match after_exact_prefix(command, "#"@) {
            Some(rest) => Some((CommandPrefix::Hash, rest)),
            None => match after_exact_prefix(command, "＃"@) {
                Some(rest) => Some((CommandPrefix::Hash, rest)),
                None => None,
            },
        },
    }
}

/// The envelope of a message, where it is a command of somebody with a name.
pub open spec fn envelope_of(
    original_text: Seq<char>,
    username: Seq<char>,
    message_type: Seq<char>,
    user_command: Seq<char>,
    observation: CommandObservation,
) -> Option<EnvelopeView> {
    let command = cleaned_command(user_command);
    match (authority_of(message_type), prefix_and_rest(command)) {
        (Some(authority), Some((prefix, rest))) => if blank(username) || trimmed_start(rest).len()
            == 0 {
            None
        } else {
            Some(
                EnvelopeView {
                    original_text,
                    user_command: command,
                    command_text: trimmed_start(rest),
                    message_type,
                    username,
                    prefix,
                    authority,
                    observation,
                },
            )
        },
        _ => None,
    }
}

/// A command without whitespace around it and without brackets at its end.
pub fn clean_command(text: &str) -> (r: String)
    ensures
        r@ == cleaned_command(text@),
{
    let started = to_chars(trim(text).as_str());
    let ended = trim_trailing(&started, &closer_chars());
    trim_end(from_chars(ended.as_slice()).as_str())
}

/// What a command starts with, and what follows.
fn split_prefix(command: &str) -> (r: Option<(CommandPrefix, String)>)
    ensures
        match r {
            Some((prefix, rest)) => prefix_and_rest(command@) == Some((prefix, rest@)),
            None => prefix_and_rest(command@) is None,
        },
{
    if let Some(rest) = strip_exact_prefix(command, "@") {
        return Some((CommandPrefix::At, rest));
    }
    if let Some(rest) = strip_exact_prefix(command, "#") {
        return Some((CommandPrefix::Hash, rest));
    }
    match strip_exact_prefix(command, "＃") {
        Some(rest) => Some((CommandPrefix::Hash, rest)),
        None => None,
    }
}

impl CommandEnvelope {
    /// The envelope of a message, where it is a command of somebody with a name.
    pub fn new(
        original_text: &str,
        username: &str,
        message_type: &str,
        user_command: &str,
        observation: CommandObservation,
    ) -> (r: Option<Self>)
        ensures
            match r {
                Some(envelope) => envelope_of(
                    original_text@,
                    username@,
                    message_type@,
                    user_command@,
                    observation,
                ) == Some(envelope@),
                None => envelope_of(
                    original_text@,
                    username@,
                    message_type@,
                    user_command@,
                    observation,
                ) is None,
            },
    {
        if is_blank(username) {
            return None;
        }
        let authority = if str_equal(message_type, "blue") {
            CommandAuthority::HallMember
        } else if str_equal(message_type, "pink") {
            CommandAuthority::Friend
        } else {
            return None;
        };
        let command = clean_command(user_command);
        match split_prefix(command.as_str()) {
            Some((prefix, rest)) => {
                let command_text = trim_start(rest.as_str());
                if is_empty_text(command_text.as_str()) {
                    return None;
                }
                Some(
                    CommandEnvelope {
                        original_text: owned(original_text),
                        user_command: command,
                        command_text,
                        message_type: owned(message_type),
                        username: owned(username),
                        prefix,
                        authority,
                        observation,
                    },
                )
            },
            None => None,
        }
    }

    /// The same command as if it came from elsewhere.
    pub fn with_authority(&self, authority: CommandAuthority) -> (r: Self)
        ensures
            r@ == (EnvelopeView {
                authority,
                message_type: type_of(authority),
                ..self@
            }),
    {
        CommandEnvelope {
            original_text: self.original_text.clone(),
            user_command: self.user_command.clone(),
            command_text: self.command_text.clone(),
            message_type: match authority {
                CommandAuthority::HallMember => owned("blue"),
                CommandAuthority::Friend => owned("pink"),
            },
            username: self.username.clone(),
            prefix: self.prefix,
            authority,
            observation: self.observation,
        }
    }

    /// Another command in place of this one.
    pub fn with_command_text(&self, command_text: &str) -> (r: Self)
        ensures
            r@ == (EnvelopeView {
                command_text: command_text@,
                user_command: match self.prefix {
                    CommandPrefix::At => "@"@ + command_text@,
                    CommandPrefix::Hash => "#"@ + command_text@,
                },
                ..self@
            }),
    {
        let user_command = match self.prefix {
            CommandPrefix::At => cat2("@", command_text),
            CommandPrefix::Hash => cat2("#", command_text),
        };
        CommandEnvelope {
            original_text: self.original_text.clone(),
            user_command,
            command_text: owned(command_text),
            message_type: self.message_type.clone(),
            username: self.username.clone(),
            prefix: self.prefix,
            authority: self.authority,
            observation: self.observation,
        }
    }

    /// Who gave the command.
    pub fn username(&self) -> (r: &str)
        ensures
            r@ == self.username@,
    {
        self.username.as_str()
    }

    /// The command with its sign.
    pub fn user_command(&self) -> (r: &str)
        ensures
            r@ == self.user_command@,
    {
        self.user_command.as_str()
    }

    /// The command without its sign.
    pub fn command_text(&self) -> (r: &str)
        ensures
            r@ == self.command_text@,
    {
        self.command_text.as_str()
    }

    /// The type of the message.
    pub fn message_type(&self) -> (r: &str)
        ensures
            r@ == self.message_type@,
    {
        self.message_type.as_str()
    }

    /// What the command starts with.
    pub fn prefix(&self) -> (r: CommandPrefix)
        ensures
            r == self.prefix,
    {
        self.prefix
    }

    /// Where the command comes from.
    pub fn authority(&self) -> (r: CommandAuthority)
        ensures
            r == self.authority,
    {
        self.authority
    }

    /// Where the command was seen.
    pub fn observation(&self) -> (r: &CommandObservation)
        ensures
            *r == self.observation,
    {
        &self.observation
    }
}

/// An envelope tells where its command comes from by the type of its message,
/// and has a name and a command.
pub open spec fn sound_envelope(envelope: EnvelopeView) -> bool {
    &&& authority_of(envelope.message_type) == Some(envelope.authority)
    &&& !blank(envelope.username)
    &&& envelope.command_text.len() > 0
}

/// Every envelope that is made is sound, and stays so as if it came from
/// elsewhere.
pub proof fn law_envelopes_are_sound(
    original_text: Seq<char>,
    username: Seq<char>,
    message_type: Seq<char>,
    user_command: Seq<char>,
    observation: CommandObservation,
    authority: CommandAuthority,
)
    requires
        envelope_of(original_text, username, message_type, user_command, observation) is Some,
    ensures
        ({
            let envelope = envelope_of(
                original_text,
                username,
                message_type,
                user_command,
                observation,
            )->0;
            &&& sound_envelope(envelope)
            &&& sound_envelope(
                EnvelopeView { authority, message_type: type_of(authority), ..envelope },
            )
        }),
{
    reveal_strlit("blue");
    reveal_strlit("pink");
    assert("blue"@[0] != "pink"@[0]);
}

// ---------------------------------------------------------------------------
// What a feature made of a command
// ---------------------------------------------------------------------------
/// A command that a feature took.
#[derive(Debug)]
pub struct FeatureCommandMatch<T> {
    pub matched: String,
    pub raw: String,
    pub command: T,
}

impl<T> FeatureCommandMatch<T> {
    /// A command that a feature took.
    pub fn new(matched: &str, raw: &str, command: T) -> (r: Self)
        ensures
            r.matched@ == matched@,
            r.raw@ == raw@,
            r.command == command,
    {
        FeatureCommandMatch { matched: owned(matched), raw: owned(raw), command }
    }

    /// The command with something made of its content.
    pub fn map<U, F: FnOnce(T) -> U>(self, change: F) -> (r: FeatureCommandMatch<U>)
        requires
            change.requires((self.command,)),
        ensures
            r.matched == self.matched,
            r.raw == self.raw,
            change.ensures((self.command,), r.command),
    {
        FeatureCommandMatch {
            matched: self.matched,
            raw: self.raw,
            command: change(self.command),
        }
    }
}

/// A command that a feature took, as plain values.
#[verifier::ext_equal]
pub struct MatchView<C> {
    pub matched: Seq<char>,
    pub raw: Seq<char>,
    pub command: C,
}

/// A command of a feature that is described elsewhere: what it locks.
#[derive(Clone, Debug)]
pub struct FeatureRequest {
    pub lock_key: String,
}

/// What is asked of the game of idioms.
#[derive(Clone, Copy, Debug, PartialEq, Eq, Structural)]
pub enum IdiomChainKind {
    Start,
    Submit,
    Stop,
    Other,
}

impl IdiomChainKind {
    /// Whether it matters who said it: for one that starts or stops the game, or
    /// that hands in an idiom.
    pub open spec fn needs_sender(self) -> bool {
        self is Start || self is Submit || self is Stop
    }

    /// Whether it matters who said it.
    pub fn requires_hall_sender(self) -> (r: bool)
        ensures
            r == self.needs_sender(),
    {
        match self {
            IdiomChainKind::Start => true,
            IdiomChainKind::Submit => true,
            IdiomChainKind::Stop => true,
            IdiomChainKind::Other => false,
        }
    }
}

/// A command to the game of idioms, and what it locks.
#[derive(Clone, Debug)]
pub struct IdiomChainRequest {
    pub kind: IdiomChainKind,
    pub lock_key: String,
}

/// What is asked of the game of turtle soup.
#[derive(Clone, Copy, Debug, PartialEq, Eq, Structural)]
pub enum TurtleSoupKind {
    Start,
    Other,
}

impl TurtleSoupKind {
    /// Whether it matters who said it: for one that starts the game.
    pub open spec fn needs_sender(self) -> bool {
        self is Start
    }

    /// Whether it matters who said it.
    pub fn requires_hall_sender(self) -> (r: bool)
        ensures
            r == self.needs_sender(),
    {
        match self {
            TurtleSoupKind::Start => true,
            TurtleSoupKind::Other => false,
        }
    }
}

/// A command to the game of turtle soup, and what it locks.
#[derive(Clone, Debug)]
pub struct TurtleSoupRequest {
    pub kind: TurtleSoupKind,
    pub lock_key: String,
}

/// What is asked of the game of the undercover.
#[derive(Clone, Copy, Debug, PartialEq, Eq, Structural)]
pub enum UndercoverKind {
    Retry,
    Other,
}

impl UndercoverKind {
    /// Whether it matters who said it: not for one that a word be sent again.
    pub open spec fn needs_sender(self) -> bool {
        self !is Retry
    }

    /// Whether it matters who said it.
    pub fn requires_hall_sender(self) -> (r: bool)
        ensures
            r == self.needs_sender(),
    {
        match self {
            UndercoverKind::Retry => false,
            UndercoverKind::Other => true,
        }
    }
}

/// A command to the game of the undercover, and what it locks.
#[derive(Clone, Debug)]
pub struct UndercoverRequest {
    pub kind: UndercoverKind,
    pub lock_key: String,
}

/// A command to the card games: one of the table, or that a hand be sent again.
#[derive(Debug)]
pub enum CardGameCommand {
    Table(LandlordCommand),
    Retry,
}

/// A command to the card games, and what it locks.
#[derive(Debug)]
pub struct CardGameRequest {
    pub command: CardGameCommand,
    pub lock_key: String,
}

impl CardGameRequest {
    /// Whether it matters who said it: not for one that asks how things stand, or
    /// that a hand be sent again.
    pub open spec fn needs_sender(self) -> bool {
        match self.command {
            CardGameCommand::Table(command) => command !is Status,
            CardGameCommand::Retry => false,
        }
    }

    /// Whether it matters who said it.
    pub fn requires_hall_sender(&self) -> (r: bool)
        ensures
            r == self.needs_sender(),
    {
        match &self.command {
            CardGameCommand::Table(LandlordCommand::Status) => false,
            CardGameCommand::Table(_) => true,
            CardGameCommand::Retry => false,
        }
    }
}

/// The forms for comparison of the texts in a command: of the name in a command
/// to the hall, and of the workflow and the arguments in one that calls a
/// workflow.
#[derive(Clone, Debug, PartialEq, Eq)]
pub struct CommandForms {
    pub speaker: String,
    pub workflow: String,
    pub args: String,
}

/// A command of one of the features.
#[derive(Debug)]
pub enum ModuleCommand {
    SongRequest(FeatureRequest),
    Playback(FeatureRequest),
    Hall(HallCommand),
    Administration(AdministrationCommand),
    IdiomChain(IdiomChainRequest),
    CardGame(CardGameRequest),
    TurtleSoup(TurtleSoupRequest),
    Undercover(UndercoverRequest),
    Invite(FeatureRequest),
    Moderation(FeatureRequest),
    CustomWorkflow(CustomWorkflowCommand),
}

impl ModuleCommand {
    /// What the command locks.
    pub open spec fn locked(self, forms: CommandForms) -> Seq<char> {
        match self {
            ModuleCommand::SongRequest(request) => request.lock_key@,
            ModuleCommand::Playback(request) => request.lock_key@,
            ModuleCommand::Hall(command) => crate::hall::lock_key_of(command@, forms.speaker@),
            ModuleCommand::Administration(command) => crate::administration::lock_key_of(command@),
            ModuleCommand::IdiomChain(request) => request.lock_key@,
            ModuleCommand::CardGame(request) => request.lock_key@,
            ModuleCommand::TurtleSoup(request) => request.lock_key@,
            ModuleCommand::Undercover(request) => request.lock_key@,
            ModuleCommand::Invite(request) => request.lock_key@,
            ModuleCommand::Moderation(request) => request.lock_key@,
            ModuleCommand::CustomWorkflow(command) => workflow_lock_key(
                command@,
                forms.workflow@,
                forms.args@,
            ),
        }
    }

    /// What the command locks.
    pub fn lock_key(&self, forms: &CommandForms) -> (r: String)
        ensures
            r@ == self.locked(*forms),
    {
        match self {
            ModuleCommand::SongRequest(request) => request.lock_key.clone(),
            ModuleCommand::Playback(request) => request.lock_key.clone(),
            ModuleCommand::Hall(command) => command.lock_key(forms.speaker.as_str()),
            ModuleCommand::Administration(command) => command.lock_key(),
            ModuleCommand::IdiomChain(request) => request.lock_key.clone(),
            ModuleCommand::CardGame(request) => request.lock_key.clone(),
            ModuleCommand::TurtleSoup(request) => request.lock_key.clone(),
            ModuleCommand::Undercover(request) => request.lock_key.clone(),
            ModuleCommand::Invite(request) => request.lock_key.clone(),
            ModuleCommand::Moderation(request) => request.lock_key.clone(),
            ModuleCommand::CustomWorkflow(command) => command.lock_key(
                forms.workflow.as_str(),
                forms.args.as_str(),
            ),
        }
    }

    /// Whether each speaker has a lock of their own.
    pub fn scopes_lock_to_actor(&self) -> (r: bool)
        ensures
            r == (self is CardGame || self is Undercover),
    {
        match self {
            ModuleCommand::CardGame(_) => true,
            ModuleCommand::Undercover(_) => true,
            _ => false,
        }
    }

    /// Whether it matters who said the command in the hall.
    pub open spec fn needs_sender(self) -> bool {
        match self {
            ModuleCommand::SongRequest(_) => false,
            ModuleCommand::Playback(_) => false,
            ModuleCommand::Hall(_) => false,
            ModuleCommand::Administration(_) => false,
            ModuleCommand::IdiomChain(request) => request.kind.needs_sender(),
            ModuleCommand::CardGame(request) => request.needs_sender(),
            ModuleCommand::TurtleSoup(request) => request.kind.needs_sender(),
            ModuleCommand::Undercover(request) => request.kind.needs_sender(),
            ModuleCommand::Invite(_) => true,
            ModuleCommand::Moderation(_) => true,
            ModuleCommand::CustomWorkflow(_) => true,
        }
    }

    /// Whether it matters who said the command in the hall.
    pub fn requires_hall_sender(&self) -> (r: bool)
        ensures
            r == self.needs_sender(),
    {
        match self {
            ModuleCommand::SongRequest(_) => false,
            ModuleCommand::Playback(_) => false,
            ModuleCommand::Hall(_) => false,
            ModuleCommand::Administration(_) => false,
            ModuleCommand::IdiomChain(request) => request.kind.requires_hall_sender(),
            ModuleCommand::CardGame(request) => request.requires_hall_sender(),
            ModuleCommand::TurtleSoup(request) => request.kind.requires_hall_sender(),
            ModuleCommand::Undercover(request) => request.kind.requires_hall_sender(),
            ModuleCommand::Invite(_) => true,
            ModuleCommand::Moderation(_) => true,
            ModuleCommand::CustomWorkflow(_) => true,
        }
    }
}

/// A command that has found its feature.
#[derive(Debug)]
pub struct RoutedCommand {
    pub matched: String,
    pub raw: String,
    pub user_command: String,
    pub message_type: String,
    pub username: String,
    pub authority: CommandAuthority,
    pub role: Option<IdentityRole>,
    pub permission_required: Option<IdentityRole>,
    pub command: ModuleCommand,
    pub observation: CommandObservation,
}

impl RoutedCommand {
    /// The command of an envelope that a feature took.
    pub fn from_envelope(
        envelope: &CommandEnvelope,
        matched: FeatureCommandMatch<ModuleCommand>,
    ) -> (r: Self)
        requires
            !blank(envelope.original_text@),
        ensures
            r.matched == matched.matched,
            r.raw == matched.raw,
            r.user_command@ == envelope.user_command@,
            r.message_type@ == envelope.message_type@,
            r.username@ == envelope.username@,
            r.authority == envelope.authority,
            r.role is None,
            r.permission_required is None,
            r.command == matched.command,
            r.observation == envelope.observation,
    {
        RoutedCommand {
            matched: matched.matched,
            raw: matched.raw,
            user_command: envelope.user_command.clone(),
            message_type: envelope.message_type.clone(),
            username: envelope.username.clone(),
            authority: envelope.authority,
            role: None,
            permission_required: None,
            command: matched.command,
            observation: envelope.observation,
        }
    }

    /// A command from the console, at a time.
    pub fn console(matched: &str, raw: &str, command: ModuleCommand, now: u128) -> (r: Self)
        ensures
            r.matched@ == matched@,
            r.raw@ == raw@,
            r.user_command@ == "@"@ + raw@,
            r.message_type@ == "控制台"@,
            r.username@ == "控制台"@,
            r.authority == CommandAuthority::HallMember,
            r.role is None,
            r.permission_required is None,
            r.command == command,
            r.observation == (CommandObservation {
                frame_id: None,
                captured_at: Some(now),
                message_id: None,
            }),
    {
        RoutedCommand {
            matched: owned(matched),
            raw: owned(raw),
            user_command: cat2("@", raw),
            message_type: owned("控制台"),
            username: owned("控制台"),
            authority: CommandAuthority::HallMember,
            role: None,
            permission_required: None,
            command,
            observation: CommandObservation {
                frame_id: None,
                captured_at: Some(now),
                message_id: None,
            },
        }
    }
}

/// Whether a text can be a command behind its sign.
pub open spec fn plain(text: Seq<char>) -> bool {
    &&& text.len() > 0
    &&& !whitespace(text[0])
    &&& !whitespace(text.last())
    &&& text.last() != ']'
    &&& text.last() != '】'
}

proof fn lemma_signs()
    ensures
        "@"@ == seq!['@'],
        "#"@ == seq!['#'],
        "＃"@ == seq!['＃'],
        !whitespace('@'),
        !whitespace('#'),
        !whitespace('＃'),
{
    reveal_strlit("@");
    reveal_strlit("#");
    reveal_strlit("＃");
    assert("@"@ =~= seq!['@']);
    assert("#"@ =~= seq!['#']);
    assert("＃"@ =~= seq!['＃']);
}

/// A command is cleaned of the whitespace round it and of the brackets at its end, and
/// of nothing else.
pub proof fn law_cleaned(
    before: Seq<char>,
    command: Seq<char>,
    closing: Seq<char>,
    after: Seq<char>,
)
    requires
        all_whitespace(before),
        plain(command),
        brackets(closing),
        all_whitespace(after),
    ensures
        cleaned_command(before + (command + closing) + after) == command,
{
    lemma_gap(closing);
    lemma_whitespace_apart();
    let middle = command + closing;
    assert(middle[0] == command[0]);
    if closing.len() > 0 {
        assert(middle.last() == closing[closing.len() - 1]);
    } else {
        assert(middle.last() == command.last());
    }
    law_trim(before, middle, after);
    law_without_trailing(command, closing, closers());
    law_trim(Seq::empty(), command, Seq::empty());
    assert(command + Seq::<char>::empty() =~= command);
}

/// A message is the command that follows its sign, whatever whitespace and closing
/// brackets stand round it: behind `@` for functions, behind `#`, also in its wide form,
/// for entertainment. The envelope tells who said it, where, and where it was seen.
pub proof fn law_messages_are_commands(
    original_text: Seq<char>,
    username: Seq<char>,
    before: Seq<char>,
    sign: char,
    inner: Seq<char>,
    text: Seq<char>,
    closing: Seq<char>,
    after: Seq<char>,
    observation: CommandObservation,
)
    requires
        all_whitespace(before),
        all_whitespace(inner),
        all_whitespace(after),
        brackets(closing),
        plain(text),
        sign == '@' || sign == '#' || sign == '＃',
        !blank(username),
    ensures
        ({
            let command = seq![sign] + (inner + text);
            let message = before + (command + closing) + after;
            let prefix = if sign == '@' {
                CommandPrefix::At
            } else {
                CommandPrefix::Hash
            };
            &&& envelope_of(original_text, username, "blue"@, message, observation) == Some(
                EnvelopeView {
                    original_text,
                    user_command: command,
                    command_text: text,
                    message_type: "blue"@,
                    username,
                    prefix,
                    authority: CommandAuthority::HallMember,
                    observation,
                },
            )
            &&& envelope_of(original_text, username, "pink"@, message, observation) == Some(
                EnvelopeView {
                    original_text,
                    user_command: command,
                    command_text: text,
                    message_type: "pink"@,
                    username,
                    prefix,
                    authority: CommandAuthority::Friend,
                    observation,
                },
            )
        }),
{
    let command = seq![sign] + (inner + text);
    lemma_signs();
    law_message_types(Seq::empty());
    assert(command[0] == sign);
    assert(command.last() == text.last());
    law_cleaned(before, command, closing, after);
    lemma_whole_prefix(seq![sign], inner + text);
    lemma_other_sign(command, '@');
    lemma_other_sign(command, '#');
    lemma_other_sign(command, '＃');
    law_trim(inner, text, Seq::empty());
}

proof fn lemma_other_sign(command: Seq<char>, sign: char)
    requires
        command.len() > 0,
    ensures
        command[0] != sign ==> after_exact_prefix(command, seq![sign]) is None,
{
    if after_exact_prefix(command, seq![sign]) is Some {
        assert(command.subrange(0, 1)[0] == command[0]);
        assert(command.subrange(0, 1) == seq![sign]);
    }
}

/// What is said in the hall is marked blue, what a friend says pink, and what is marked
/// otherwise comes from neither.
pub proof fn law_message_types(message_type: Seq<char>)
    ensures
        authority_of("blue"@) == Some(CommandAuthority::HallMember),
        authority_of("pink"@) == Some(CommandAuthority::Friend),
        message_type != "blue"@ && message_type != "pink"@ ==> authority_of(message_type) is None,
        type_of(CommandAuthority::HallMember) == "blue"@,
        type_of(CommandAuthority::Friend) == "pink"@,
        "blue"@ != "pink"@,
{
    reveal_strlit("blue");
    reveal_strlit("pink");
    assert("blue"@[0] == 'b');
    assert("pink"@[0] == 'p');
}

/// No command is made of a message of another type, of one by nobody, of one that does
/// not start with a sign, and of a sign alone.
pub proof fn law_other_messages(
    original_text: Seq<char>,
    username: Seq<char>,
    message_type: Seq<char>,
    user_command: Seq<char>,
    observation: CommandObservation,
)
    ensures
        message_type != "blue"@ && message_type != "pink"@ ==> envelope_of(
            original_text,
            username,
            message_type,
            user_command,
            observation,
        ) is None,
        blank(username) ==> envelope_of(
            original_text,
            username,
            message_type,
            user_command,
            observation,
        ) is None,
        plain(user_command) && user_command[0] != '@' && user_command[0] != '#' && user_command[0]
            != '＃' ==> envelope_of(
            original_text,
            username,
            message_type,
            user_command,
            observation,
        ) is None,
        user_command.len() == 1 ==> envelope_of(
            original_text,
            username,
            message_type,
            user_command,
            observation,
        ) is None,
{
    lemma_signs();
    law_message_types(message_type);
    let none = Seq::<char>::empty();
    if plain(user_command) {
        law_cleaned(none, user_command, none, none);
        assert(none + (user_command + none) + none =~= user_command);
        lemma_other_sign(user_command, '@');
        lemma_other_sign(user_command, '#');
        lemma_other_sign(user_command, '＃');
        if user_command.len() == 1 {
            assert(user_command.skip(1) =~= none);
        }
    } else if user_command.len() == 1 {
        lemma_cleaned_short(user_command);
    }
}

/// A single character that is no command is cleaned away.
proof fn lemma_cleaned_short(text: Seq<char>)
    requires
        text.len() == 1,
        !plain(text),
    ensures
        cleaned_command(text).len() == 0,
        prefix_and_rest(cleaned_command(text)) is None,
{
    lemma_signs();
    lemma_whitespace_apart();
    let none = Seq::<char>::empty();
    if whitespace(text[0]) {
        law_trim(text, none, none);
        assert(text + none + none =~= text);
        law_without_trailing(none, none, closers());
        assert(none + none =~= none);
    } else {
        law_trim(none, text, none);
        assert(none + text + none =~= text);
        assert(brackets(text));
        lemma_gap(text);
        law_without_trailing(none, text, closers());
        assert(none + text =~= text);
    }
    law_trim(none, none, none);
    assert(none + none =~= none);
}

/// It matters who said a command in the hall where it invites, moderates or calls a
/// workflow, and in the games where it is a move of somebody: not where it asks how
/// things stand or that something be sent again. It does not matter for songs, for the
/// hall and for the assistant.
pub proof fn law_who_matters(command: ModuleCommand)
    ensures
        command is SongRequest || command is Playback || command is Hall || command
            is Administration ==> !command.needs_sender(),
        command is Invite || command is Moderation || command is CustomWorkflow
            ==> command.needs_sender(),
        command matches ModuleCommand::IdiomChain(request) ==> (command.needs_sender()
            <==> request.kind == IdiomChainKind::Start || request.kind == IdiomChainKind::Submit
            || request.kind == IdiomChainKind::Stop),
        command matches ModuleCommand::TurtleSoup(request) ==> (command.needs_sender()
            <==> request.kind == TurtleSoupKind::Start),
        command matches ModuleCommand::Undercover(request) ==> (command.needs_sender()
            <==> request.kind != UndercoverKind::Retry),
        command matches ModuleCommand::CardGame(request) ==> (command.needs_sender() <==> !(
        request.command is Retry || request.command == CardGameCommand::Table(
            LandlordCommand::Status,
        ))),
{
}

/// What a command locks is what its feature says it locks.
pub proof fn law_locks_of_features(command: ModuleCommand, forms: CommandForms)
    ensures
        command matches ModuleCommand::SongRequest(request) ==> command.locked(forms)
            == request.lock_key@,
        command matches ModuleCommand::Playback(request) ==> command.locked(forms)
            == request.lock_key@,
        command matches ModuleCommand::IdiomChain(request) ==> command.locked(forms)
            == request.lock_key@,
        command matches ModuleCommand::CardGame(request) ==> command.locked(forms)
            == request.lock_key@,
        command matches ModuleCommand::TurtleSoup(request) ==> command.locked(forms)
            == request.lock_key@,
        command matches ModuleCommand::Undercover(request) ==> command.locked(forms)
            == request.lock_key@,
        command matches ModuleCommand::Invite(request) ==> command.locked(forms)
            == request.lock_key@,
        command matches ModuleCommand::Moderation(request) ==> command.locked(forms)
            == request.lock_key@,
        command matches ModuleCommand::Hall(inner) ==> command.locked(forms)
            == crate::hall::lock_key_of(inner@, forms.speaker@),
        command matches ModuleCommand::Administration(inner) ==> command.locked(forms)
            == crate::administration::lock_key_of(inner@),
        command matches ModuleCommand::CustomWorkflow(inner) ==> command.locked(forms)
            == workflow_lock_key(inner@, forms.workflow@, forms.args@),
{
}

} // verus!
