//! Carrying out the commands to the hall, and announcing its end.
use vstd::prelude::*;
use crate::config::checks::is_empty_text;
use crate::hall::HallCommand;
use crate::hall::HALL_EXPIRING_WARNING_MINUTES;
use crate::hall::HallCommandView;
use crate::ports::{answer_of, extends, failure_of, lemma_call, lemma_no_call, since};
use crate::text::cat2;
use crate::text::cat3;
use crate::text::cat5;
use crate::text::decimal;
use crate::text::format_u64;
use crate::text::owned;
use crate::text::str_equal;

verus! {

/// Who gave a command, and how.
#[derive(Clone, Debug, PartialEq, Eq)]
pub struct HallCommandContext {
    pub message_type: String,
    pub username: String,
    pub user_command: String,
}

/// Who gave a command, and how, as plain values.
#[verifier::ext_equal]
pub struct HallContextView {
    pub message_type: Seq<char>,
    pub username: Seq<char>,
    pub user_command: Seq<char>,
}

impl View for HallCommandContext {
    type V = HallContextView;

    open spec fn view(&self) -> HallContextView {
        HallContextView {
            message_type: self.message_type@,
            username: self.username@,
            user_command: self.user_command@,
        }
    }
}

/// What was read of the hall. `normalized_name` is the form for comparison of
/// its name.
#[derive(Clone, Debug, PartialEq, Eq)]
pub struct HallObservation {
    pub name: String,
    pub normalized_name: String,
    pub remaining_minutes: Option<u32>,
}

/// What was read of the hall, as plain values.
#[verifier::ext_equal]
pub struct ObservationView {
    pub name: Seq<char>,
    pub normalized_name: Seq<char>,
    pub remaining_minutes: Option<u32>,
}

impl View for HallObservation {
    type V = ObservationView;

    open spec fn view(&self) -> ObservationView {
        ObservationView {
            name: self.name@,
            normalized_name: self.normalized_name@,
            remaining_minutes: self.remaining_minutes,
        }
    }
}

/// What was asked of the outside for the hall, and how it was answered.
#[verifier::ext_equal]
pub enum HallCall {
    Detect(Result<Option<ObservationView>, Seq<char>>),
    UpdateRemaining { minutes: u32, failure: Option<Seq<char>> },
    ClearRemaining { failure: Option<Seq<char>> },
    Reply { message: Seq<char>, failure: Option<Seq<char>> },
    Log { context: HallContextView, command: Seq<char>, failure: Option<Seq<char>> },
    ReadInfo(Result<ObservationView, Seq<char>>),
    ToggleMicrophone { failure: Option<Seq<char>> },
    Remaining(Result<Option<u32>, Seq<char>>),
    ExecutorIdle(Result<bool, Seq<char>>),
    WarningSent(Result<bool, Seq<char>>),
    MarkWarningSent { failure: Option<Seq<char>> },
}

/// What a reading says.
pub open spec fn read_answer(r: Result<HallObservation, String>) -> Result<
    ObservationView,
    Seq<char>,
> {
    match r {
        Ok(info) => Ok(info@),
        Err(reason) => Err(reason@),
    }
}

/// What an attempt at reading says.
pub open spec fn detect_answer(r: Result<Option<HallObservation>, String>) -> Result<
    Option<ObservationView>,
    Seq<char>,
> {
    match r {
        Ok(Some(info)) => Ok(Some(info@)),
        Ok(None) => Ok(None),
        Err(reason) => Err(reason@),
    }
}

/// What was asked of a port, and how it was answered. It stands in proofs only.
pub type HallCalls = Seq<HallCall>;

/// How the hall is looked at.
pub trait HallDetectionPort {
    /// What was asked so far, and how it was answered.
    spec fn calls(&self) -> HallCalls;

    /// Reads the hall, where it can be.
    fn detect_public_hall(&mut self) -> (r: Result<Option<HallObservation>, String>)
        ensures
            final(self).calls() == old(self).calls().push(HallCall::Detect(detect_answer(r))),
    ;

    /// Keeps the minutes that were read.
    fn update_hall_remaining_minutes(&mut self, minutes: u32) -> (r: Result<(), String>)
        ensures
            final(self).calls() == old(self).calls().push(
                HallCall::UpdateRemaining { minutes, failure: failure_of(r) },
            ),
    ;

    /// Forgets the minutes that were read.
    fn clear_hall_remaining_minutes(&mut self) -> (r: Result<(), String>)
        ensures
            final(self).calls() == old(self).calls().push(
                HallCall::ClearRemaining { failure: failure_of(r) },
            ),
    ;
}

/// How commands to the hall are carried out.
pub trait HallApplicationPort: HallDetectionPort {
    /// Answers in the hall.
    fn reply(&mut self, message: &str) -> (r: Result<(), String>)
        ensures
            final(self).calls() == old(self).calls().push(
                HallCall::Reply { message: message@, failure: failure_of(r) },
            ),
    ;

    /// Writes down that a command was carried out.
    fn log_executed(&mut self, context: &HallCommandContext, final_command: &str) -> (r: Result<
        (),
        String,
    >)
        ensures
            final(self).calls() == old(self).calls().push(
                HallCall::Log {
                    context: context@,
                    command: final_command@,
                    failure: failure_of(r),
                },
            ),
    ;

    /// Reads the hall.
    fn read_hall_info(&mut self) -> (r: Result<HallObservation, String>)
        ensures
            final(self).calls() == old(self).calls().push(HallCall::ReadInfo(read_answer(r))),
    ;

    /// Switches the microphone.
    fn toggle_microphone(&mut self) -> (r: Result<(), String>)
        ensures
            final(self).calls() == old(self).calls().push(
                HallCall::ToggleMicrophone { failure: failure_of(r) },
            ),
    ;

    /// The minutes that are known to be left.
    fn hall_remaining_minutes(&mut self) -> (r: Result<Option<u32>, String>)
        ensures
            final(self).calls() == old(self).calls().push(HallCall::Remaining(answer_of(r))),
    ;
}

/// How the end of the hall is announced.
pub trait HallMaintenancePort {
    /// What was asked so far, and how it was answered.
    spec fn calls(&self) -> HallCalls;

    /// Whether nothing is being carried out.
    fn executor_is_idle(&mut self) -> (r: Result<bool, String>)
        ensures
            final(self).calls() == old(self).calls().push(HallCall::ExecutorIdle(answer_of(r))),
    ;

    /// Whether the end was announced.
    fn hall_expiring_warning_sent(&mut self) -> (r: Result<bool, String>)
        ensures
            final(self).calls() == old(self).calls().push(HallCall::WarningSent(answer_of(r))),
    ;

    /// The minutes that are known to be left.
    fn hall_remaining_minutes(&mut self) -> (r: Result<Option<u32>, String>)
        ensures
            final(self).calls() == old(self).calls().push(HallCall::Remaining(answer_of(r))),
    ;

    /// Says something in the hall.
    fn reply(&mut self, message: &str) -> (r: Result<(), String>)
        ensures
            final(self).calls() == old(self).calls().push(
                HallCall::Reply { message: message@, failure: failure_of(r) },
            ),
    ;

    /// Keeps that the end was announced.
    fn mark_hall_expiring_warning_sent(&mut self) -> (r: Result<(), String>)
        ensures
            final(self).calls() == old(self).calls().push(
                HallCall::MarkWarningSent { failure: failure_of(r) },
            ),
    ;
}

// ---------------------------------------------------------------------------
// What is said
// ---------------------------------------------------------------------------
/// How the end of the hall is announced.
pub open spec fn expiring_text(minutes: u32) -> Seq<char> {
    if minutes == 0 {
        "大厅即将到期"@
    } else {
        "大厅即将到期，剩余"@ + decimal(minutes as nat) + "分钟"@
    }
}

/// How the time of the hall is told.
pub open spec fn time_text(minutes: u32) -> Seq<char> {
    "大厅到期时间，剩余"@ + decimal(minutes as nat) + "分钟"@
}

/// How a hall that was read is told.
pub open spec fn hall_text(info: ObservationView) -> Seq<char> {
    let name = if info.name.len() == 0 {
        "未识别到大厅名称"@
    } else {
        info.name
    };
    match info.remaining_minutes {
        Some(minutes) => "当前为"@ + name + "，剩余"@ + decimal(minutes as nat) + "分钟"@,
        None => "当前为"@ + name,
    }
}

// ---------------------------------------------------------------------------
// What is asked, in order
// ---------------------------------------------------------------------------
/// Only a reply is given.
pub open spec fn replied(calls: Seq<HallCall>, message: Seq<char>, failure: Option<Seq<char>>) -> bool {
    calls.len() == 1 && calls[0] == (HallCall::Reply { message, failure })
}

/// The minutes are forgotten, and then a reply is given.
pub open spec fn cleared_and_replied(
    calls: Seq<HallCall>,
    message: Seq<char>,
    failure: Option<Seq<char>>,
) -> bool {
    calls.len() > 0 && match calls[0] {
        HallCall::ClearRemaining { failure: Some(reason) } => calls.len() == 1 && failure == Some(
            reason,
        ),
        HallCall::ClearRemaining { failure: None } => replied(calls.skip(1), message, failure),
        _ => false,
    }
}

/// The minutes are kept, and then a reply is given.
pub open spec fn updated_and_replied(
    calls: Seq<HallCall>,
    minutes: u32,
    message: Seq<char>,
    failure: Option<Seq<char>>,
) -> bool {
    calls.len() > 0 && match calls[0] {
        HallCall::UpdateRemaining { minutes: kept, failure: Some(reason) } => calls.len() == 1
            && kept == minutes && failure == Some(reason),
        HallCall::UpdateRemaining { minutes: kept, failure: None } => kept == minutes && replied(
            calls.skip(1),
            message,
            failure,
        ),
        _ => false,
    }
}

/// The hall is read and told. `public_name` is the form for comparison of the
/// name of public halls.
pub open spec fn detected(
    calls: Seq<HallCall>,
    public_name: Seq<char>,
    failure: Option<Seq<char>>,
) -> bool {
    calls.len() > 0 && match calls[0] {
        HallCall::ReadInfo(Err(_)) => replied(calls.skip(1), "大厅检测失败"@, failure),
        HallCall::ReadInfo(Ok(info)) => if info.normalized_name == public_name {
            cleared_and_replied(calls.skip(1), "当前为公共大厅"@, failure)
        } else {
            match info.remaining_minutes {
                Some(minutes) => updated_and_replied(
                    calls.skip(1),
                    minutes,
                    hall_text(info),
                    failure,
                ),
                None => replied(calls.skip(1), hall_text(info), failure),
            }
        },
        _ => false,
    }
}

/// The hall is read and its time told.
pub open spec fn time_read(
    calls: Seq<HallCall>,
    public_name: Seq<char>,
    failure: Option<Seq<char>>,
) -> bool {
    calls.len() > 0 && match calls[0] {
        HallCall::ReadInfo(Err(_)) => replied(calls.skip(1), "大厅时间未知"@, failure),
        HallCall::ReadInfo(Ok(info)) => if info.normalized_name == public_name {
            cleared_and_replied(calls.skip(1), "公共大厅无时间限制"@, failure)
        } else {
            match info.remaining_minutes {
                Some(minutes) => updated_and_replied(
                    calls.skip(1),
                    minutes,
                    time_text(minutes),
                    failure,
                ),
                None => replied(calls.skip(1), "大厅时间未知"@, failure),
            }
        },
        _ => false,
    }
}

/// The time of the hall is told, and the hall read where it is not known.
pub open spec fn time_told(
    calls: Seq<HallCall>,
    public_name: Seq<char>,
    failure: Option<Seq<char>>,
) -> bool {
    calls.len() > 0 && match calls[0] {
        HallCall::Remaining(Err(reason)) => calls.len() == 1 && failure == Some(reason),
        HallCall::Remaining(Ok(Some(minutes))) => if minutes > 0 {
            replied(calls.skip(1), time_text(minutes), failure)
        } else {
            time_read(calls.skip(1), public_name, failure)
        },
        HallCall::Remaining(Ok(None)) => time_read(calls.skip(1), public_name, failure),
        _ => false,
    }
}

/// How many calls it takes to see whether the hall is public, and the answer.
/// What was read is kept, or forgotten for a public hall.
pub open spec fn checked(calls: Seq<HallCall>, public_name: Seq<char>) -> Option<
    (int, Result<bool, Seq<char>>),
> {
    if calls.len() == 0 {
        None
    } else {
        match calls[0] {
            HallCall::Detect(Err(reason)) => Some((1int, Err(reason))),
            HallCall::Detect(Ok(None)) => Some((1int, Ok(false))),
            HallCall::Detect(Ok(Some(info))) => if info.normalized_name == public_name {
                if calls.len() < 2 {
                    None
                } else {
                    match calls[1] {
                        HallCall::ClearRemaining { failure: Some(reason) } => Some(
                            (2int, Err(reason)),
                        ),
                        HallCall::ClearRemaining { failure: None } => Some((2int, Ok(true))),
                        _ => None,
                    }
                }
            } else {
                match info.remaining_minutes {
                    Some(minutes) => if calls.len() < 2 {
                        None
                    } else {
                        match calls[1] {
                            HallCall::UpdateRemaining { minutes: kept, failure } => if kept
                                != minutes {
                                None
                            } else {
                                match failure {
                                    Some(reason) => Some((2int, Err(reason))),
                                    None => Some((2int, Ok(false))),
                                }
                            },
                            _ => None,
                        }
                    },
                    None => Some((1int, Ok(false))),
                }
            },
            _ => None,
        }
    }
}

/// A note is written.
pub open spec fn noted(
    calls: Seq<HallCall>,
    context: HallContextView,
    command: Seq<char>,
) -> bool {
    calls.len() > 0 && match calls[0] {
        HallCall::Log { context: by, command: what, .. } => by == context && what == command,
        _ => false,
    }
}

/// Why the first call failed, where it is one that writes a note or switches the
/// microphone.
pub open spec fn first_failure(calls: Seq<HallCall>) -> Option<Seq<char>> {
    match calls[0] {
        HallCall::Log { failure, .. } => failure,
        HallCall::ToggleMicrophone { failure } => failure,
        _ => None,
    }
}

/// The microphone is switched and that is told, behind a note.
pub open spec fn switched(
    calls: Seq<HallCall>,
    context: HallContextView,
    username: Seq<char>,
    failure: Option<Seq<char>>,
) -> bool {
    noted(calls, context, "microphone toggle "@ + username) && match first_failure(calls) {
        Some(reason) => calls.len() == 1 && failure == Some(reason),
        None => {
            let rest = calls.skip(1);
            rest.len() > 0 && rest[0] is ToggleMicrophone && match first_failure(rest) {
                Some(reason) => rest.len() == 1 && failure == Some(reason),
                None => replied(
                    rest.skip(1),
                    "@"@ + username + " 执行了切换麦克风状态！"@,
                    failure,
                ),
            }
        },
    }
}

/// A command is carried out.
pub open spec fn executed(
    calls: Seq<HallCall>,
    public_name: Seq<char>,
    context: HallContextView,
    command: HallCommandView,
    failure: Option<Seq<char>>,
) -> bool {
    match command {
        HallCommandView::Detect => noted(calls, context, "hall detect"@) && match first_failure(
            calls,
        ) {
            Some(reason) => calls.len() == 1 && failure == Some(reason),
            None => detected(calls.skip(1), public_name, failure),
        },
        HallCommandView::Time => noted(calls, context, "hall time"@) && match first_failure(calls) {
            Some(reason) => calls.len() == 1 && failure == Some(reason),
            None => time_told(calls.skip(1), public_name, failure),
        },
        HallCommandView::ToggleMicrophone { username } => match checked(calls, public_name) {
            Some((n, Err(reason))) => calls.len() == n && failure == Some(reason),
            Some((n, Ok(true))) => {
                &&& calls.len() == n + 1
                &&& noted(calls.skip(n), context, "microphone skipped publicHall "@ + username)
                &&& failure == first_failure(calls.skip(n))
            },
            Some((n, Ok(false))) => switched(calls.skip(n), context, username, failure),
            None => false,
        },
    }
}

/// The end of the hall is announced, where it is near, was not announced and
/// nothing is being carried out. `r` is whether it was.
pub open spec fn warned(calls: Seq<HallCall>, r: Result<bool, Seq<char>>) -> bool {
    calls.len() > 0 && match calls[0] {
        HallCall::ExecutorIdle(Err(reason)) => calls.len() == 1 && r == Err::<bool, Seq<char>>(
            reason,
        ),
        HallCall::ExecutorIdle(Ok(false)) => calls.len() == 1 && r == Ok::<bool, Seq<char>>(false),
        HallCall::ExecutorIdle(Ok(true)) => unless_sent(calls.skip(1), r),
        _ => false,
    }
}

/// The end of the hall is announced, where it is near and was not announced.
pub open spec fn unless_sent(calls: Seq<HallCall>, r: Result<bool, Seq<char>>) -> bool {
    calls.len() > 0 && match calls[0] {
        HallCall::WarningSent(Err(reason)) => calls.len() == 1 && r == Err::<bool, Seq<char>>(
            reason,
        ),
        HallCall::WarningSent(Ok(true)) => calls.len() == 1 && r == Ok::<bool, Seq<char>>(false),
        HallCall::WarningSent(Ok(false)) => if_near(calls.skip(1), r),
        _ => false,
    }
}

/// The end of the hall is announced, where it is near.
pub open spec fn if_near(calls: Seq<HallCall>, r: Result<bool, Seq<char>>) -> bool {
    calls.len() > 0 && match calls[0] {
        HallCall::Remaining(Err(reason)) => calls.len() == 1 && r == Err::<bool, Seq<char>>(reason),
        HallCall::Remaining(Ok(None)) => calls.len() == 1 && r == Ok::<bool, Seq<char>>(false),
        HallCall::Remaining(Ok(Some(minutes))) => if minutes > HALL_EXPIRING_WARNING_MINUTES {
            calls.len() == 1 && r == Ok::<bool, Seq<char>>(false)
        } else {
            announced(calls.skip(1), minutes, r)
        },
        _ => false,
    }
}

/// The end of the hall is announced, and that it was is kept.
pub open spec fn announced(
    calls: Seq<HallCall>,
    minutes: u32,
    r: Result<bool, Seq<char>>,
) -> bool {
    calls.len() > 0 && match calls[0] {
        HallCall::Reply { message, failure } => message == expiring_text(minutes) && match failure {
            Some(reason) => calls.len() == 1 && r == Err::<bool, Seq<char>>(reason),
            None => calls.len() == 2 && match calls[1] {
                HallCall::MarkWarningSent { failure: Some(reason) } => r == Err::<bool, Seq<char>>(
                    reason,
                ),
                HallCall::MarkWarningSent { failure: None } => r == Ok::<bool, Seq<char>>(true),
                _ => false,
            },
        },
        _ => false,
    }
}

/// Carries out commands to the hall. `public_name` is the form for comparison of
/// the name of public halls.
#[derive(Clone, Debug, PartialEq, Eq)]
pub struct HallApplication {
    pub public_name: String,
}

/// How the end of the hall is announced.
fn expiring_message(minutes: u32) -> (r: String)
    ensures
        r@ == expiring_text(minutes),
{
    if minutes == 0 {
        owned("大厅即将到期")
    } else {
        cat3("大厅即将到期，剩余", format_u64(minutes as u64).as_str(), "分钟")
    }
}

/// How the time of the hall is told.
fn time_message(minutes: u32) -> (r: String)
    ensures
        r@ == time_text(minutes),
{
    cat3("大厅到期时间，剩余", format_u64(minutes as u64).as_str(), "分钟")
}

/// How a hall that was read is told.
fn hall_message(info: &HallObservation) -> (r: String)
    ensures
        r@ == hall_text(info@),
{
    let name = if is_empty_text(info.name.as_str()) {
        "未识别到大厅名称"
    } else {
        info.name.as_str()
    };
    match info.remaining_minutes {
        Some(minutes) => cat5(
            "当前为",
            name,
            "，剩余",
            format_u64(minutes as u64).as_str(),
            "分钟",
        ),
        None => cat2("当前为", name),
    }
}

impl HallApplication {
    /// Whether a hall that was read is public.
    pub fn is_public_hall(&self, info: &HallObservation) -> (r: bool)
        ensures
            r == (info.normalized_name@ == self.public_name@),
    {
        str_equal(info.normalized_name.as_str(), self.public_name.as_str())
    }

    /// Announces the end of the hall, where it is near, was not announced and
    /// nothing is being carried out. Tells whether it did.
    pub fn maybe_warn_expiring<P: HallMaintenancePort>(&self, port: &mut P) -> (r: Result<
        bool,
        String,
    >)
        ensures
            extends(old(port).calls(), final(port).calls()),
            warned(since(old(port).calls(), final(port).calls()), answer_of(r)),
    {
        let ghost c0 = port.calls();
        let idle = port.executor_is_idle();
        let ghost c1 = port.calls();
        proof {
            lemma_no_call(c1);
            lemma_call(c0, c1.last(), c1);
        }
        match idle {
            Err(reason) => {
                return Err(reason);
            },
            Ok(false) => {
                return Ok(false);
            },
            Ok(true) => {},
        }
        let sent = port.hall_expiring_warning_sent();
        let ghost c2 = port.calls();
        proof {
            lemma_no_call(c2);
            lemma_call(c1, c2.last(), c2);
            lemma_call(c0, c1.last(), c2);
        }
        match sent {
            Err(reason) => {
                return Err(reason);
            },
            Ok(true) => {
                return Ok(false);
            },
            Ok(false) => {},
        }
        let remaining = port.hall_remaining_minutes();
        let ghost c3 = port.calls();
        proof {
            lemma_no_call(c3);
            lemma_call(c2, c3.last(), c3);
            lemma_call(c1, c2.last(), c3);
            lemma_call(c0, c1.last(), c3);
        }
        let minutes: u32 = match remaining {
            Err(reason) => {
                return Err(reason);
            },
            Ok(None) => {
                return Ok(false);
            },
            Ok(Some(minutes)) => minutes,
        };
        if minutes > HALL_EXPIRING_WARNING_MINUTES {
            return Ok(false);
        }
        let message = expiring_message(minutes);
        let replied = port.reply(message.as_str());
        let ghost c4 = port.calls();
        proof {
            lemma_no_call(c4);
            lemma_call(c3, c4.last(), c4);
            lemma_call(c2, c3.last(), c4);
            lemma_call(c1, c2.last(), c4);
            lemma_call(c0, c1.last(), c4);
        }
        if let Err(reason) = replied {
            return Err(reason);
        }
        let marked = port.mark_hall_expiring_warning_sent();
        let ghost c5 = port.calls();
        proof {
            lemma_no_call(c5);
            lemma_call(c4, c5.last(), c5);
            lemma_call(c3, c4.last(), c5);
            lemma_call(c2, c3.last(), c5);
            lemma_call(c1, c2.last(), c5);
            lemma_call(c0, c1.last(), c5);
            assert(since(c3, c5)[1] == since(c3, c5).skip(1)[0]);
        }
        match marked {
            Ok(()) => Ok(true),
            Err(reason) => Err(reason),
        }
    }

    /// Carries out a command.
    pub fn execute<P: HallApplicationPort>(
        &self,
        context: &HallCommandContext,
        command: &HallCommand,
        port: &mut P,
    ) -> (r: Result<(), String>)
        ensures
            extends(old(port).calls(), final(port).calls()),
            executed(
                since(old(port).calls(), final(port).calls()),
                self.public_name@,
                context@,
                command@,
                failure_of(r),
            ),
    {
        let ghost c0 = port.calls();
        match command {
            HallCommand::Detect => {
                let noted = port.log_executed(context, "hall detect");
                let ghost c1 = port.calls();
                if let Err(reason) = noted {
                    proof {
                        lemma_no_call(c1);
                        lemma_call(c0, c1.last(), c1);
                    }
                    return Err(reason);
                }
                let outcome = self.execute_detect(port);
                proof {
                    lemma_call(c0, c1.last(), port.calls());
                }
                outcome
            },
            HallCommand::Time => {
                let noted = port.log_executed(context, "hall time");
                let ghost c1 = port.calls();
                if let Err(reason) = noted {
                    proof {
                        lemma_no_call(c1);
                        lemma_call(c0, c1.last(), c1);
                    }
                    return Err(reason);
                }
                let outcome = self.reply_hall_time(port);
                proof {
                    lemma_call(c0, c1.last(), port.calls());
                }
                outcome
            },
            HallCommand::ToggleMicrophone { username } => {
                let public = self.check_public_hall(port);
                let ghost c1 = port.calls();
                let ghost n = c1.len() - c0.len();
                match public {
                    Err(reason) => Err(reason),
                    Ok(true) => {
                        let note = cat2("microphone skipped publicHall ", username.as_str());
                        let outcome = port.log_executed(context, note.as_str());
                        proof {
                            let c2 = port.calls();
                            lemma_no_call(c2);
                            lemma_call(c1, c2.last(), c2);
                            lemma_after_check(c0, c1, c2, self.public_name@);
                        }
                        outcome
                    },
                    Ok(false) => {
                        let outcome = self.switch_microphone(context, username.as_str(), port);
                        proof {
                            lemma_after_check(c0, c1, port.calls(), self.public_name@);
                        }
                        outcome
                    },
                }
            },
        }
    }

    /// Switches the microphone and tells it.
    fn switch_microphone<P: HallApplicationPort>(
        &self,
        context: &HallCommandContext,
        username: &str,
        port: &mut P,
    ) -> (r: Result<(), String>)
        ensures
            extends(old(port).calls(), final(port).calls()),
            switched(
                since(old(port).calls(), final(port).calls()),
                context@,
                username@,
                failure_of(r),
            ),
    {
        let ghost c0 = port.calls();
        let note = cat2("microphone toggle ", username);
        let noted = port.log_executed(context, note.as_str());
        let ghost c1 = port.calls();
        proof {
            lemma_no_call(c1);
            lemma_call(c0, c1.last(), c1);
        }
        if let Err(reason) = noted {
            return Err(reason);
        }
        let toggled = port.toggle_microphone();
        let ghost c2 = port.calls();
        proof {
            lemma_no_call(c2);
            lemma_call(c1, c2.last(), c2);
            lemma_call(c0, c1.last(), c2);
        }
        if let Err(reason) = toggled {
            return Err(reason);
        }
        let message = cat3("@", username, " 执行了切换麦克风状态！");
        let outcome = port.reply(message.as_str());
        proof {
            let c3 = port.calls();
            lemma_no_call(c3);
            lemma_call(c2, c3.last(), c3);
            lemma_call(c1, c2.last(), c3);
            lemma_call(c0, c1.last(), c3);
        }
        outcome
    }

    /// Reads the hall and tells it.
    fn execute_detect<P: HallApplicationPort>(&self, port: &mut P) -> (r: Result<(), String>)
        ensures
            extends(old(port).calls(), final(port).calls()),
            detected(
                since(old(port).calls(), final(port).calls()),
                self.public_name@,
                failure_of(r),
            ),
    {
        let ghost c0 = port.calls();
        let read = port.read_hall_info();
        let ghost c1 = port.calls();
        let outcome = match read {
            Ok(info) => {
                if self.is_public_hall(&info) {
                    self.clear_and_reply(port, "当前为公共大厅")
                } else {
                    let message = hall_message(&info);
                    match info.remaining_minutes {
                        Some(minutes) => self.update_and_reply(port, minutes, message.as_str()),
                        None => self.just_reply(port, message.as_str()),
                    }
                }
            },
            Err(_) => self.just_reply(port, "大厅检测失败"),
        };
        proof {
            lemma_call(c0, c1.last(), port.calls());
        }
        outcome
    }

    /// Tells the time of the hall, and reads the hall where it is not known.
    fn reply_hall_time<P: HallApplicationPort>(&self, port: &mut P) -> (r: Result<(), String>)
        ensures
            extends(old(port).calls(), final(port).calls()),
            time_told(
                since(old(port).calls(), final(port).calls()),
                self.public_name@,
                failure_of(r),
            ),
    {
        let ghost c0 = port.calls();
        let known = port.hall_remaining_minutes();
        let ghost c1 = port.calls();
        let outcome = match known {
            Err(reason) => {
                proof {
                    lemma_no_call(c1);
                    lemma_call(c0, c1.last(), c1);
                }
                return Err(reason);
            },
            Ok(Some(minutes)) => if minutes > 0 {
                self.just_reply(port, time_message(minutes).as_str())
            } else {
                self.read_hall_time(port)
            },
            Ok(None) => self.read_hall_time(port),
        };
        proof {
            lemma_call(c0, c1.last(), port.calls());
        }
        outcome
    }

    /// Reads the hall and tells its time.
    fn read_hall_time<P: HallApplicationPort>(&self, port: &mut P) -> (r: Result<(), String>)
        ensures
            extends(old(port).calls(), final(port).calls()),
            time_read(
                since(old(port).calls(), final(port).calls()),
                self.public_name@,
                failure_of(r),
            ),
    {
        let ghost c0 = port.calls();
        let read = port.read_hall_info();
        let ghost c1 = port.calls();
        let outcome = match read {
            Ok(info) => {
                if self.is_public_hall(&info) {
                    self.clear_and_reply(port, "公共大厅无时间限制")
                } else {
                    match info.remaining_minutes {
                        Some(minutes) => self.update_and_reply(
                            port,
                            minutes,
                            time_message(minutes).as_str(),
                        ),
                        None => self.just_reply(port, "大厅时间未知"),
                    }
                }
            },
            Err(_) => self.just_reply(port, "大厅时间未知"),
        };
        proof {
            lemma_call(c0, c1.last(), port.calls());
        }
        outcome
    }

    /// Whether the hall is public. What was read is kept, or forgotten for a
    /// public hall.
    pub fn check_public_hall<P: HallDetectionPort>(&self, port: &mut P) -> (r: Result<bool, String>)
        ensures
            extends(old(port).calls(), final(port).calls()),
            checked(since(old(port).calls(), final(port).calls()), self.public_name@) == Some(
                (final(port).calls().len() - old(port).calls().len(), answer_of(r)),
            ),
    {
        let ghost c0 = port.calls();
        let found = port.detect_public_hall();
        let ghost c1 = port.calls();
        proof {
            lemma_no_call(c1);
            lemma_call(c0, c1.last(), c1);
        }
        let info = match found {
            Err(reason) => {
                return Err(reason);
            },
            Ok(None) => {
                return Ok(false);
            },
            Ok(Some(info)) => info,
        };
        let public = self.is_public_hall(&info);
        if public {
            let cleared = port.clear_hall_remaining_minutes();
            proof {
                let c2 = port.calls();
                lemma_no_call(c2);
                lemma_call(c1, c2.last(), c2);
                lemma_call(c0, c1.last(), c2);
                assert(since(c0, c2)[1] == since(c0, c2).skip(1)[0]);
            }
            if let Err(reason) = cleared {
                return Err(reason);
            }
        } else if let Some(minutes) = info.remaining_minutes {
            let kept = port.update_hall_remaining_minutes(minutes);
            proof {
                let c2 = port.calls();
                lemma_no_call(c2);
                lemma_call(c1, c2.last(), c2);
                lemma_call(c0, c1.last(), c2);
                assert(since(c0, c2)[1] == since(c0, c2).skip(1)[0]);
            }
            if let Err(reason) = kept {
                return Err(reason);
            }
        }
        Ok(public)
    }

    /// Only gives a reply.
    fn just_reply<P: HallApplicationPort>(&self, port: &mut P, message: &str) -> (r: Result<
        (),
        String,
    >)
        ensures
            extends(old(port).calls(), final(port).calls()),
            replied(since(old(port).calls(), final(port).calls()), message@, failure_of(r)),
    {
        let ghost c0 = port.calls();
        let outcome = port.reply(message);
        proof {
            let c1 = port.calls();
            lemma_no_call(c1);
            lemma_call(c0, c1.last(), c1);
        }
        outcome
    }

    /// Forgets the minutes, and then gives a reply.
    fn clear_and_reply<P: HallApplicationPort>(&self, port: &mut P, message: &str) -> (r: Result<
        (),
        String,
    >)
        ensures
            extends(old(port).calls(), final(port).calls()),
            cleared_and_replied(
                since(old(port).calls(), final(port).calls()),
                message@,
                failure_of(r),
            ),
    {
        let ghost c0 = port.calls();
        let cleared = port.clear_hall_remaining_minutes();
        let ghost c1 = port.calls();
        if let Err(reason) = cleared {
            proof {
                lemma_no_call(c1);
                lemma_call(c0, c1.last(), c1);
            }
            return Err(reason);
        }
        let outcome = self.just_reply(port, message);
        proof {
            lemma_call(c0, c1.last(), port.calls());
        }
        outcome
    }

    /// Keeps the minutes, and then gives a reply.
    fn update_and_reply<P: HallApplicationPort>(
        &self,
        port: &mut P,
        minutes: u32,
        message: &str,
    ) -> (r: Result<(), String>)
        ensures
            extends(old(port).calls(), final(port).calls()),
            updated_and_replied(
                since(old(port).calls(), final(port).calls()),
                minutes,
                message@,
                failure_of(r),
            ),
    {
        let ghost c0 = port.calls();
        let kept = port.update_hall_remaining_minutes(minutes);
        let ghost c1 = port.calls();
        if let Err(reason) = kept {
            proof {
                lemma_no_call(c1);
                lemma_call(c0, c1.last(), c1);
            }
            return Err(reason);
        }
        let outcome = self.just_reply(port, message);
        proof {
            lemma_call(c0, c1.last(), port.calls());
        }
        outcome
    }
}

/// What follows the check whether the hall is public does not change its answer.
proof fn lemma_after_check(
    c0: Seq<HallCall>,
    c1: Seq<HallCall>,
    c2: Seq<HallCall>,
    public_name: Seq<char>,
)
    requires
        extends(c0, c1),
        extends(c1, c2),
        checked(since(c0, c1), public_name) is Some,
        (checked(since(c0, c1), public_name)->0).0 == c1.len() - c0.len(),
    ensures
        extends(c0, c2),
        checked(since(c0, c2), public_name) == checked(since(c0, c1), public_name),
        since(c0, c2).skip(c1.len() - c0.len()) == since(c1, c2),
{
    assert(c2.take(c0.len() as int) =~= c1.take(c0.len() as int));
    assert(since(c0, c2).skip(c1.len() - c0.len()) =~= since(c1, c2));
    assert forall|i: int| 0 <= i < c1.len() - c0.len() implies since(c0, c2)[i] == since(
        c0,
        c1,
    )[i] by {
        assert(c2.take(c1.len() as int)[c0.len() + i] == c1[c0.len() + i]);
    }
}

// ---------------------------------------------------------------------------
// What holds of it
// ---------------------------------------------------------------------------
/// The end of the hall is announced at most once: where it was announced, where
/// something is being carried out, and where it is not near, nothing is said.
pub proof fn law_warns_once(calls: Seq<HallCall>, r: Result<bool, Seq<char>>, i: int)
    requires
        warned(calls, r),
        0 <= i < calls.len(),
        calls[i] is Reply,
    ensures
        calls[0] == HallCall::ExecutorIdle(Ok(true)),
        calls[1] == HallCall::WarningSent(Ok(false)),
        calls[2] matches HallCall::Remaining(Ok(Some(minutes))) && minutes
            <= HALL_EXPIRING_WARNING_MINUTES,
        i == 3,
{
    assert(calls.skip(1).skip(1)[0] == calls[2]);
    if calls.len() > 1 {
        assert(calls.skip(1)[0] == calls[1]);
    }
    if calls.len() > 3 {
        assert(calls.skip(1).skip(1).skip(1)[0] == calls[3]);
    }
    if calls.len() > 4 {
        assert(calls.skip(1).skip(1).skip(1)[1] == calls[4]);
    }
}

/// Where the end was announced, that it was is kept.
pub proof fn law_warning_is_kept(calls: Seq<HallCall>)
    requires
        warned(calls, Ok(true)),
    ensures
        calls.last() == (HallCall::MarkWarningSent { failure: None }),
        calls[calls.len() - 2] is Reply,
{
    assert(calls.skip(1).skip(1).skip(1)[0] == calls[3]);
    assert(calls.skip(1).skip(1).skip(1)[1] == calls[4]);
}

/// In a public hall the microphone is not switched.
pub proof fn law_public_microphone(
    calls: Seq<HallCall>,
    public_name: Seq<char>,
    context: HallContextView,
    username: Seq<char>,
    failure: Option<Seq<char>>,
    i: int,
)
    requires
        executed(
            calls,
            public_name,
            context,
            HallCommandView::ToggleMicrophone { username },
            failure,
        ),
        0 <= i < calls.len(),
        calls[i] is ToggleMicrophone,
    ensures
        !(calls[0] matches HallCall::Detect(Ok(Some(info))) && info.normalized_name == public_name),
{
    if calls[0] matches HallCall::Detect(Ok(Some(info))) && info.normalized_name == public_name {
        assert(checked(calls, public_name) is Some);
        if calls.len() == 3 {
            assert(calls.skip(2)[0] == calls[2]);
        }
    }
}

/// Whoever asks which hall this is is told it, behind a note of the question: a public
/// hall as such, with the minutes forgotten; another by its name and its minutes, which
/// are kept; and that it could not be read, where it could not.
pub proof fn law_hall_is_told(
    calls: Seq<HallCall>,
    public_name: Seq<char>,
    context: HallContextView,
    failure: Option<Seq<char>>,
)
    requires
        executed(calls, public_name, context, HallCommandView::Detect, failure),
    ensures
        calls.len() >= 1,
        calls[0] matches HallCall::Log { context: by, command, failure: first } && by == context
            && command == "hall detect"@ && (first is Some ==> calls.len() == 1 && failure
            == first) && (first is None ==> calls.len() >= 2 && calls[1] is ReadInfo),
        calls.len() >= 2 ==> (calls[1] matches HallCall::ReadInfo(Err(_)) ==> calls.len() == 3
            && calls[2] == (HallCall::Reply { message: "大厅检测失败"@, failure })),
        calls.len() >= 2 ==> (calls[1] matches HallCall::ReadInfo(Ok(info)) ==> {
            &&& info.normalized_name == public_name ==> calls.len() >= 3 && calls[2]
                is ClearRemaining && (calls[2] == (HallCall::ClearRemaining { failure: None })
                ==> calls.len() == 4 && calls[3] == (HallCall::Reply {
                message: "当前为公共大厅"@,
                failure,
            }))
            &&& info.normalized_name != public_name && info.remaining_minutes is Some ==> {
                let minutes = info.remaining_minutes->0;
                &&& calls.len() >= 3
                &&& calls[2] matches HallCall::UpdateRemaining { minutes: kept, failure: second }
                &&& kept == minutes
                &&& second is Some ==> calls.len() == 3 && failure == second
                &&& second is None && info.name.len() > 0 ==> calls.len() == 4 && calls[3] == (
                HallCall::Reply {
                    message: "当前为"@ + info.name + "，剩余"@ + decimal(minutes as nat) + "分钟"@,
                    failure,
                })
                &&& second is None && info.name.len() == 0 ==> calls.len() == 4 && calls[3] == (
                HallCall::Reply {
                    message: "当前为"@ + "未识别到大厅名称"@ + "，剩余"@ + decimal(minutes as nat)
                        + "分钟"@,
                    failure,
                })
            }
            &&& info.normalized_name != public_name && info.remaining_minutes is None
                && info.name.len() > 0 ==> calls.len() == 3 && calls[2] == (HallCall::Reply {
                message: "当前为"@ + info.name,
                failure,
            })
        }),
{
    lemma_skips(calls);
}

/// The calls behind the first ones.
proof fn lemma_skips(calls: Seq<HallCall>)
    ensures
        calls.len() > 1 ==> calls.skip(1)[0] == calls[1],
        calls.len() > 2 ==> calls.skip(1).skip(1)[0] == calls[2] && calls.skip(1)[1] == calls[2]
            && calls.skip(2)[0] == calls[2],
        calls.len() > 3 ==> calls.skip(1).skip(1).skip(1)[0] == calls[3] && calls.skip(2).skip(
            1,
        )[0] == calls[3],
        calls.len() > 4 ==> calls.skip(1).skip(1).skip(1).skip(1)[0] == calls[4] && calls.skip(
            2,
        ).skip(1).skip(1)[0] == calls[4] && calls.skip(1).skip(1).skip(1)[1] == calls[4],
{
}

/// Whoever asks how long the hall lasts is told the minutes that are known; where none
/// are, the hall is read: a public hall has no limit, the minutes of another are kept and
/// told, and what could not be read is unknown.
pub proof fn law_time_is_told(
    calls: Seq<HallCall>,
    public_name: Seq<char>,
    context: HallContextView,
    failure: Option<Seq<char>>,
)
    requires
        executed(calls, public_name, context, HallCommandView::Time, failure),
    ensures
        calls.len() >= 1,
        calls[0] matches HallCall::Log { context: by, command, failure: first } && by == context
            && command == "hall time"@ && (first is Some ==> calls.len() == 1 && failure == first)
            && (first is None ==> calls.len() >= 2 && calls[1] is Remaining),
        calls.len() >= 2 ==> (calls[1] matches HallCall::Remaining(Ok(Some(minutes))) ==> (minutes
            > 0 ==> calls.len() == 3 && calls[2] == (HallCall::Reply {
            message: "大厅到期时间，剩余"@ + decimal(minutes as nat) + "分钟"@,
            failure,
        }))),
        calls.len() >= 2 && (calls[1] == HallCall::Remaining(Ok(None)) || calls[1]
            == HallCall::Remaining(Ok(Some(0u32)))) ==> {
            &&& calls.len() >= 3
            &&& calls[2] is ReadInfo
            &&& calls[2] matches HallCall::ReadInfo(Err(_)) ==> calls.len() == 4 && calls[3] == (
            HallCall::Reply { message: "大厅时间未知"@, failure })
            &&& calls[2] matches HallCall::ReadInfo(Ok(info)) ==> {
                &&& info.normalized_name == public_name ==> calls.len() >= 4 && calls[3]
                    is ClearRemaining && (calls[3] == (HallCall::ClearRemaining { failure: None })
                    ==> calls.len() == 5 && calls[4] == (HallCall::Reply {
                    message: "公共大厅无时间限制"@,
                    failure,
                }))
                &&& info.normalized_name != public_name && info.remaining_minutes is None
                    ==> calls.len() == 4 && calls[3] == (HallCall::Reply {
                    message: "大厅时间未知"@,
                    failure,
                })
                &&& info.normalized_name != public_name && info.remaining_minutes is Some ==> {
                    let minutes = info.remaining_minutes->0;
                    &&& calls.len() >= 4
                    &&& calls[3] matches HallCall::UpdateRemaining { minutes: kept, failure: last }
                    &&& kept == minutes
                    &&& last is None ==> calls.len() == 5 && calls[4] == (HallCall::Reply {
                        message: "大厅到期时间，剩余"@ + decimal(minutes as nat) + "分钟"@,
                        failure,
                    })
                }
            }
        },
        calls.len() >= 2 ==> (calls[1] matches HallCall::Remaining(Err(reason)) ==> calls.len()
            == 2 && failure == Some(reason)),
{
    lemma_skips(calls);
}

/// Outside a public hall the microphone is switched, behind a note in the name of who
/// asked, and that is said; what was read of the hall is kept. In a public hall it is only
/// noted that it was not.
pub proof fn law_microphone_is_switched(
    calls: Seq<HallCall>,
    public_name: Seq<char>,
    context: HallContextView,
    username: Seq<char>,
    failure: Option<Seq<char>>,
)
    requires
        executed(
            calls,
            public_name,
            context,
            HallCommandView::ToggleMicrophone { username },
            failure,
        ),
    ensures
        calls.len() >= 1,
        calls[0] is Detect,
        calls[0] matches HallCall::Detect(Err(reason)) ==> calls.len() == 1 && failure == Some(
            reason,
        ),
        calls[0] == HallCall::Detect(Ok(None)) ==> told_of_switch(calls, 1, context, username, failure),
        calls[0] matches HallCall::Detect(Ok(Some(info))) ==> {
            &&& info.normalized_name == public_name ==> calls.len() >= 2 && calls[1]
                is ClearRemaining && (calls[1] == (HallCall::ClearRemaining { failure: None })
                ==> calls.len() == 3 && (calls[2] matches HallCall::Log {
                context: by,
                command,
                failure: last,
            } && by == context && command == "microphone skipped publicHall "@ + username && last
                == failure))
            &&& info.normalized_name != public_name && info.remaining_minutes is None
                ==> told_of_switch(calls, 1, context, username, failure)
            &&& info.normalized_name != public_name && info.remaining_minutes is Some ==> {
                &&& calls.len() >= 2
                &&& calls[1] matches HallCall::UpdateRemaining { minutes, failure: second }
                &&& Some(minutes) == info.remaining_minutes
                &&& second is Some ==> calls.len() == 2 && failure == second
                &&& second is None ==> told_of_switch(calls, 2, context, username, failure)
            }
        },
{
    lemma_skips(calls);
    if calls.len() > 3 {
        assert(calls.skip(1).skip(1)[1] == calls[3]);
    }
}

/// From a place on, a note is written, the microphone is switched and that is said, up to
/// the first of these that fails.
pub open spec fn told_of_switch(
    calls: Seq<HallCall>,
    at: int,
    context: HallContextView,
    username: Seq<char>,
    failure: Option<Seq<char>>,
) -> bool {
    &&& calls.len() > at
    &&& calls[at] matches HallCall::Log { context: by, command, failure: first }
    &&& by == context
    &&& command == "microphone toggle "@ + username
    &&& first is Some ==> calls.len() == at + 1 && failure == first
    &&& first is None ==> {
        &&& calls.len() > at + 1
        &&& calls[at + 1] matches HallCall::ToggleMicrophone { failure: second }
        &&& second is Some ==> calls.len() == at + 2 && failure == second
        &&& second is None ==> calls.len() == at + 3 && calls[at + 2] == (HallCall::Reply {
            message: "@"@ + username + " 执行了切换麦克风状态！"@,
            failure,
        })
    }
}

/// The end is announced where nothing goes on, it was not announced and at most ten
/// minutes are left; otherwise nothing is said. Each question is asked only where the one
/// before it leaves the matter open.
pub proof fn law_end_is_announced(calls: Seq<HallCall>, r: Result<bool, Seq<char>>)
    requires
        warned(calls, r),
    ensures
        calls.len() >= 1,
        calls[0] is ExecutorIdle,
        calls[0] == HallCall::ExecutorIdle(Ok(false)) ==> calls.len() == 1 && r == Ok::<
            bool,
            Seq<char>,
        >(false),
        calls[0] == HallCall::ExecutorIdle(Ok(true)) ==> calls.len() >= 2 && calls[1]
            is WarningSent,
        calls.len() >= 2 && calls[1] == HallCall::WarningSent(Ok(true)) ==> calls.len() == 2 && r
            == Ok::<bool, Seq<char>>(false),
        calls.len() >= 2 && calls[1] == HallCall::WarningSent(Ok(false)) ==> calls.len() >= 3
            && calls[2] is Remaining,
        calls.len() >= 3 && calls[2] == HallCall::Remaining(Ok(None)) ==> calls.len() == 3 && r
            == Ok::<bool, Seq<char>>(false),
        calls.len() >= 3 ==> (calls[2] matches HallCall::Remaining(Ok(Some(minutes))) ==> {
            &&& minutes > 10 ==> calls.len() == 3 && r == Ok::<bool, Seq<char>>(false)
            &&& minutes <= 10 ==> calls.len() >= 4 && calls[3] is Reply
            &&& 0 < minutes <= 10 ==> (calls[3] matches HallCall::Reply { message, .. } && message
                == "大厅即将到期，剩余"@ + decimal(minutes as nat) + "分钟"@)
            &&& minutes == 0 ==> (calls[3] matches HallCall::Reply { message, .. } && message
                == "大厅即将到期"@)
        }),
        calls.len() >= 4 ==> (calls[3] matches HallCall::Reply { failure, .. } ==> (failure is None
            ==> calls.len() == 5 && calls[4] is MarkWarningSent)),
        calls.len() >= 5 && calls[4] == (HallCall::MarkWarningSent { failure: None }) ==> r == Ok::<
            bool,
            Seq<char>,
        >(true),
{
    lemma_skips(calls);
}

} // verus!
