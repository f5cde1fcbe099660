//! The hall: its name, how long it lasts, and its microphone.
pub mod application;
pub mod state;

use vstd::prelude::*;
use crate::administration::is_message_end;
use crate::administration::message_ends;
use crate::chat_text::CommandSyntax;
use crate::chat_text::command_identity;
use crate::chat_text::law_command_and_argument;
use crate::chat_text::law_other_text_is_no_command;
use crate::chat_text::lemma_gap;
use crate::chat_text::lemma_whole_prefix;
use crate::chat_text::parse_prefixed_command;
use crate::chat_text::separator_chars;
use crate::chat_text::strip_ascii_case_prefix;
use crate::chat_text::strip_exact_prefix;
use crate::chat_text::{brackets, clean, gap};
use crate::chat_text::{after_exact_prefix, after_prefix, identity_of, prefixed_argument, separators};
use crate::command::CommandAuthority;
use crate::command::CommandEnvelope;
use crate::command::CommandPrefix;
use crate::command::FeatureCommandMatch;
use crate::command::{EnvelopeView, MatchView};
use crate::config::checks::is_empty_text;
use crate::config::checks::lowered;
use crate::scan::law_without_leading;
use crate::scan::trim_leading;
use crate::scan::without_leading;
use crate::text::cat2;
use crate::text::cat3;
use crate::text::from_chars;
use crate::text::owned;
use crate::text::str_equal;
use crate::text::to_chars;

verus! {

/// How many minutes before its end a hall is announced to end.
pub const HALL_EXPIRING_WARNING_MINUTES: u32 = 10;

/// A command to the hall.
#[derive(Clone, Debug, PartialEq, Eq)]
pub enum HallCommand {
    Detect,
    Time,
    ToggleMicrophone { username: String },
}

/// A command to the hall, as plain values.
#[verifier::ext_equal]
pub enum HallCommandView {
    Detect,
    Time,
    ToggleMicrophone { username: Seq<char> },
}

impl View for HallCommand {
    type V = HallCommandView;

    open spec fn view(&self) -> HallCommandView {
        match self {
            HallCommand::Detect => HallCommandView::Detect,
            HallCommand::Time => HallCommandView::Time,
            HallCommand::ToggleMicrophone { username } => HallCommandView::ToggleMicrophone {
                username: username@,
            },
        }
    }
}

/// The command that a text in the hall is, with the words it was found by.
pub open spec fn hall_request(text: Seq<char>) -> Option<(Seq<char>, HallCommandView)> {
    if prefixed_argument(text, "大厅检测"@, false) is Some {
        Some(("大厅检测"@, HallCommandView::Detect))
    } else if prefixed_argument(text, "大厅时间"@, false) is Some {
        Some(("大厅时间"@, HallCommandView::Time))
    } else {
        None
    }
}

/// Whether a friend's text asks for the microphone.
pub open spec fn asks_microphone(text: Seq<char>) -> bool {
    match after_prefix(text, "麦克风"@) {
        Some(rest) => message_ends(without_leading(rest, separators())),
        None => false,
    }
}

/// Whether a command is one to the hall, by how it starts.
pub open spec fn claimed(envelope: EnvelopeView) -> bool {
    let text = envelope.command_text;
    envelope.prefix == CommandPrefix::At && match envelope.authority {
        CommandAuthority::HallMember => {
            ||| after_exact_prefix(text, "大厅检测"@) is Some
            ||| after_exact_prefix(text, "大厅时间"@) is Some
        },
        CommandAuthority::Friend => after_prefix(text, "麦克风"@) is Some,
    }
}

/// The command to the hall that an envelope holds.
pub open spec fn chat_command(envelope: EnvelopeView) -> Option<MatchView<HallCommandView>> {
    if !claimed(envelope) {
        None
    } else {
        match envelope.authority {
            CommandAuthority::HallMember => match hall_request(envelope.command_text) {
                Some((matched, command)) => Some(MatchView { matched, raw: matched, command }),
                None => None,
            },
            CommandAuthority::Friend => if asks_microphone(envelope.command_text) {
                Some(
                    MatchView {
                        matched: "麦克风"@,
                        raw: "麦克风 "@ + envelope.username,
                        command: HallCommandView::ToggleMicrophone { username: envelope.username },
                    },
                )
            } else {
                None
            },
        }
    }
}

/// What a command locks. `speaker` is the form for comparison of the name in it.
pub open spec fn lock_key_of(command: HallCommandView, speaker: Seq<char>) -> Seq<char> {
    match command {
        HallCommandView::Detect => "hall_detect"@,
        HallCommandView::Time => "hall_time"@,
        HallCommandView::ToggleMicrophone { username } => "microphone:"@ + identity_of(
            username,
            speaker,
        ),
    }
}

/// Whether two commands ask for the same. `left` and `right` are the forms for
/// comparison of the names in them.
pub open spec fn same_command(
    a: HallCommandView,
    left: Seq<char>,
    b: HallCommandView,
    right: Seq<char>,
) -> bool {
    match (a, b) {
        (
            HallCommandView::ToggleMicrophone { username: one },
            HallCommandView::ToggleMicrophone { username: other },
        ) => identity_of(one, left) == identity_of(other, right),
        _ => lock_key_of(a, left) == lock_key_of(b, right),
    }
}

impl HallCommand {
    /// Whether a command is one to the hall, by how it starts.
    pub fn claims_chat(envelope: &CommandEnvelope) -> (r: bool)
        ensures
            r == claimed(envelope@),
    {
        if envelope.prefix != CommandPrefix::At {
            return false;
        }
        let text = envelope.command_text.as_str();
        match envelope.authority {
            CommandAuthority::HallMember => strip_exact_prefix(text, "大厅检测").is_some()
                || strip_exact_prefix(text, "大厅时间").is_some(),
            CommandAuthority::Friend => strip_ascii_case_prefix(text, "麦克风").is_some(),
        }
    }

    /// The command to the hall that an envelope holds.
    pub fn parse_chat(envelope: &CommandEnvelope) -> (r: Option<FeatureCommandMatch<Self>>)
        ensures
            match r {
                Some(found) => chat_command(envelope@) == Some(
                    MatchView {
                        matched: found.matched@,
                        raw: found.raw@,
                        command: found.command@,
                    },
                ),
                None => chat_command(envelope@) is None,
            },
    {
        if !Self::claims_chat(envelope) {
            return None;
        }
        let text = envelope.command_text.as_str();
        match envelope.authority {
            CommandAuthority::HallMember => match Self::parse_hall(text) {
                Some(parsed) => {
                    if is_empty_text(parsed.argument.as_str()) {
                        Some(
                            FeatureCommandMatch::new(
                                parsed.matched,
                                parsed.matched,
                                parsed.command,
                            ),
                        )
                    } else {
                        let raw = cat3(parsed.matched, " ", parsed.argument.as_str());
                        Some(
                            FeatureCommandMatch::new(parsed.matched, raw.as_str(), parsed.command),
                        )
                    }
                },
                None => None,
            },
            CommandAuthority::Friend => match Self::parse_friend(text, envelope.username.as_str()) {
                Some(command) => {
                    let raw = cat2("麦克风 ", envelope.username.as_str());
                    Some(FeatureCommandMatch::new("麦克风", raw.as_str(), command))
                },
                None => None,
            },
        }
    }

    /// The command that a text in the hall is.
    pub fn parse_hall(text: &str) -> (r: Option<CommandSyntax<Self>>)
        ensures
            match r {
                Some(parsed) => hall_request(text@) == Some((parsed.matched@, parsed.command@))
                    && parsed.argument@.len() == 0,
                None => hall_request(text@) is None,
            },
    {
        if let Some(argument) = parse_prefixed_command(text, "大厅检测", false) {
            return Some(
                CommandSyntax { matched: "大厅检测", argument, command: HallCommand::Detect },
            );
        }
        if let Some(argument) = parse_prefixed_command(text, "大厅时间", false) {
            return Some(
                CommandSyntax { matched: "大厅时间", argument, command: HallCommand::Time },
            );
        }
        None
    }

    /// The command that a friend's text is.
    pub fn parse_friend(text: &str, username: &str) -> (r: Option<Self>)
        ensures
            match r {
                Some(command) => asks_microphone(text@) && command@
                    == (HallCommandView::ToggleMicrophone { username: username@ }),
                None => !asks_microphone(text@),
            },
    {
        match strip_ascii_case_prefix(text, "麦克风") {
            Some(rest) => {
                let rest = trim_leading(&to_chars(rest.as_str()), &separator_chars());
                if is_message_end(from_chars(rest.as_slice()).as_str()) {
                    Some(HallCommand::ToggleMicrophone { username: owned(username) })
                } else {
                    None
                }
            },
            None => None,
        }
    }

    /// What this command locks. `speaker` is the form for comparison of the name
    /// in it.
    pub fn lock_key(&self, speaker: &str) -> (r: String)
        ensures
            r@ == lock_key_of(self@, speaker@),
    {
        match self {
            HallCommand::Detect => owned("hall_detect"),
            HallCommand::Time => owned("hall_time"),
            HallCommand::ToggleMicrophone { username } => cat2(
                "microphone:",
                command_identity(username.as_str(), speaker).as_str(),
            ),
        }
    }

    /// Whether two commands ask for the same. `left` and `right` are the forms
    /// for comparison of the names in them.
    pub fn same_request(&self, left: &str, other: &Self, right: &str) -> (r: bool)
        ensures
            r == same_command(self@, left@, other@, right@),
    {
        match (self, other) {
            (
                HallCommand::ToggleMicrophone { username: one },
                HallCommand::ToggleMicrophone { username: two },
            ) => str_equal(
                command_identity(one.as_str(), left).as_str(),
                command_identity(two.as_str(), right).as_str(),
            ),
            _ => str_equal(self.lock_key(left).as_str(), other.lock_key(right).as_str()),
        }
    }
}

/// Two commands ask for the same exactly where they lock the same.
pub proof fn law_same_request_same_lock(
    a: HallCommandView,
    left: Seq<char>,
    b: HallCommandView,
    right: Seq<char>,
)
    ensures
        same_command(a, left, b, right) <==> lock_key_of(a, left) == lock_key_of(b, right),
{
    let word = "microphone:"@;
    if a is ToggleMicrophone && b is ToggleMicrophone {
        let one = identity_of(a->username, left);
        let other = identity_of(b->username, right);
        if word + one == word + other {
            assert(one =~= (word + one).skip(word.len() as int));
            assert(other =~= (word + other).skip(word.len() as int));
        }
    }
}

proof fn lemma_hall_words()
    ensures
        "大厅检测"@.len() == 4,
        "大厅时间"@.len() == 4,
        "大厅检测"@[2] == '检',
        "大厅时间"@[2] == '时',
        "大厅检测"@ != "大厅时间"@,
        lowered("大厅检测"@) != lowered("大厅时间"@),
{
    reveal_strlit("大厅检测");
    reveal_strlit("大厅时间");
    assert(lowered("大厅检测"@)[2] == '检');
    assert(lowered("大厅时间"@)[2] == '时');
}

/// Whoever is in the hall may ask, behind an at sign, what the hall is called and how
/// long it lasts; with anything more in the message it is neither question.
pub proof fn law_questions_in_the_hall(
    envelope: EnvelopeView,
    before: Seq<char>,
    argument: Seq<char>,
    after: Seq<char>,
)
    requires
        envelope.prefix == CommandPrefix::At,
        envelope.authority == CommandAuthority::HallMember,
        gap(before),
        clean(argument),
        brackets(after),
        before.len() == 0 && argument.len() > 0 ==> argument[0] != '/',
    ensures
        envelope.command_text == "大厅检测"@ + (before + (argument + after)) ==> (if argument.len()
            == 0 {
            chat_command(envelope) == Some(
                MatchView {
                    matched: "大厅检测"@,
                    raw: "大厅检测"@,
                    command: HallCommandView::Detect,
                },
            )
        } else {
            chat_command(envelope) is None
        }),
        envelope.command_text == "大厅时间"@ + (before + (argument + after)) ==> (if argument.len()
            == 0 {
            chat_command(envelope) == Some(
                MatchView {
                    matched: "大厅时间"@,
                    raw: "大厅时间"@,
                    command: HallCommandView::Time,
                },
            )
        } else {
            chat_command(envelope) is None
        }),
{
    lemma_hall_words();
    let rest = before + (argument + after);
    lemma_whole_prefix("大厅检测"@, rest);
    lemma_whole_prefix("大厅时间"@, rest);
    law_command_and_argument("大厅检测"@, "大厅检测"@, before, argument, after);
    law_command_and_argument("大厅时间"@, "大厅时间"@, before, argument, after);
    law_other_text_is_no_command("大厅检测"@ + rest, "大厅时间"@, rest, false);
    law_other_text_is_no_command("大厅时间"@ + rest, "大厅检测"@, rest, false);
}

/// A friend may ask for the microphone, behind an at sign, and asks in their own name;
/// what follows a closing bracket is not read, and anything else makes it another
/// message.
pub proof fn law_asking_for_the_microphone(
    envelope: EnvelopeView,
    before: Seq<char>,
    rest: Seq<char>,
)
    requires
        envelope.prefix == CommandPrefix::At,
        envelope.authority == CommandAuthority::Friend,
        envelope.command_text == "麦克风"@ + (before + rest),
        gap(before),
        rest.len() > 0 ==> rest[0] != '：' && rest[0] != ':' && rest[0] != ' ' && rest[0] != '\t',
    ensures
        rest.len() == 0 || rest[0] == ']' || rest[0] == '】' ==> {
            &&& chat_command(envelope) matches Some(found)
            &&& found.command == (HallCommandView::ToggleMicrophone {
                username: envelope.username,
            })
            &&& found.matched == "麦克风"@
            &&& found.raw == "麦克风 "@ + envelope.username
        },
        rest.len() > 0 && rest[0] != ']' && rest[0] != '】' ==> chat_command(envelope) is None,
{
    lemma_whole_prefix("麦克风"@, before + rest);
    lemma_gap(before);
    law_without_leading(before, rest, separators());
}

/// Only a friend gets the microphone, only someone in the hall is told of the hall, and
/// neither behind a hash sign.
pub proof fn law_who_may_ask(envelope: EnvelopeView)
    ensures
        envelope.prefix == CommandPrefix::Hash ==> chat_command(envelope) is None,
        chat_command(envelope) matches Some(found) ==> (match found.command {
            HallCommandView::Detect => envelope.authority == CommandAuthority::HallMember,
            HallCommandView::Time => envelope.authority == CommandAuthority::HallMember,
            HallCommandView::ToggleMicrophone { username } => envelope.authority
                == CommandAuthority::Friend && username == envelope.username,
        }),
        chat_command(envelope) is Some ==> claimed(envelope),
{
}

/// Different requests lock differently: the two questions, and the microphone for each
/// name that is compared differently.
pub proof fn law_locks_apart(
    one: Seq<char>,
    left: Seq<char>,
    other: Seq<char>,
    right: Seq<char>,
)
    requires
        left.len() > 0,
        right.len() > 0,
    ensures
        lock_key_of(HallCommandView::Detect, left) != lock_key_of(HallCommandView::Time, right),
        lock_key_of(HallCommandView::ToggleMicrophone { username: one }, left) != lock_key_of(
            HallCommandView::Detect,
            right,
        ),
        lock_key_of(HallCommandView::ToggleMicrophone { username: one }, left) != lock_key_of(
            HallCommandView::Time,
            right,
        ),
        lock_key_of(HallCommandView::ToggleMicrophone { username: one }, left) == lock_key_of(
            HallCommandView::ToggleMicrophone { username: other },
            right,
        ) <==> left == right,
        same_command(
            HallCommandView::ToggleMicrophone { username: one },
            left,
            HallCommandView::ToggleMicrophone { username: other },
            right,
        ) <==> left == right,
        !same_command(HallCommandView::Detect, left, HallCommandView::Time, right),
        same_command(HallCommandView::Detect, left, HallCommandView::Detect, right),
{
    reveal_strlit("hall_detect");
    reveal_strlit("hall_time");
    reveal_strlit("microphone:");
    assert("hall_detect"@.len() == 11 && "hall_time"@.len() == 9);
    assert("hall_detect"@[0] == 'h' && "hall_time"@[0] == 'h');
    assert("microphone:"@.len() == 11);
    let word = "microphone:"@;
    assert((word + left)[0] == 'm');
    assert((word + left).skip(11) =~= left);
    assert((word + right).skip(11) =~= right);
}

} // verus!
