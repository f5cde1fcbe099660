//! Carrying out the commands that administer the assistant.
use vstd::prelude::*;
use crate::administration::AdministrationCommand;
use crate::administration::AdministrationDispatch;
use crate::administration::ChatListenerModeCommand;
use crate::administration::IDLE_EXIT_MIN_MINUTES;
use crate::administration::{dispatched, mode_label, AdministrationCommandView};
use crate::ports::{
    carried_out, failure_of, lemma_all_made, lemma_granted, lemma_refused, Exchange,
};
use crate::text::cat2;
use crate::text::format_u64;
use crate::text::decimal;

verus! {

/// Who gave a command, and how.
#[derive(Clone, Debug, PartialEq, Eq)]
pub struct AdministrationCommandContext {
    pub message_type: String,
    pub username: String,
    pub user_command: String,
}

/// Who gave a command, and how, as plain values.
#[verifier::ext_equal]
pub struct ContextView {
    pub message_type: Seq<char>,
    pub username: Seq<char>,
    pub user_command: Seq<char>,
}

impl View for AdministrationCommandContext {
    type V = ContextView;

    open spec fn view(&self) -> ContextView {
        ContextView {
            message_type: self.message_type@,
            username: self.username@,
            user_command: self.user_command@,
        }
    }
}

/// What is asked of the outside to administer the assistant.
#[verifier::ext_equal]
pub enum AdministrationRequest {
    SetCommandsEnabled(bool),
    ConfigureIdleExit(u32),
    RecordCommandActivity,
    LogExecuted { context: ContextView, final_command: Seq<char> },
    SendHall(Seq<char>),
    SendHallBatch { messages: Seq<Seq<char>>, delay_ms: u64 },
}

/// What the messages of a batch say.
pub open spec fn lines_of(messages: Seq<&str>) -> Seq<Seq<char>> {
    messages.map_values(|message: &str| message@)
}

/// What was asked of a port, and how it was answered. It stands in proofs only.
pub type AdministrationCalls = Seq<Exchange<AdministrationRequest>>;

/// What can be done at once.
pub trait AdministrationImmediatePort {
    /// What was asked so far, and how it was answered.
    spec fn calls(&self) -> AdministrationCalls;

    /// Switches commands on or off.
    fn set_commands_enabled(&mut self, enabled: bool) -> (r: Result<(), String>)
        ensures
            final(self).calls() == old(self).calls().push(
                Exchange {
                    request: AdministrationRequest::SetCommandsEnabled(enabled),
                    failure: failure_of(r),
                },
            ),
    ;

    /// Lets the assistant leave after so many minutes without commands.
    fn configure_idle_exit(&mut self, minutes: u32) -> (r: Result<(), String>)
        ensures
            final(self).calls() == old(self).calls().push(
                Exchange {
                    request: AdministrationRequest::ConfigureIdleExit(minutes),
                    failure: failure_of(r),
                },
            ),
    ;

    /// Notes that a command came.
    fn record_command_activity(&mut self) -> (r: Result<(), String>)
        ensures
            final(self).calls() == old(self).calls().push(
                Exchange {
                    request: AdministrationRequest::RecordCommandActivity,
                    failure: failure_of(r),
                },
            ),
    ;

    /// Writes down that a command was carried out.
    fn log_executed(
        &mut self,
        context: &AdministrationCommandContext,
        final_command: &str,
    ) -> (r: Result<(), String>)
        ensures
            final(self).calls() == old(self).calls().push(
                Exchange {
                    request: AdministrationRequest::LogExecuted {
                        context: context@,
                        final_command: final_command@,
                    },
                    failure: failure_of(r),
                },
            ),
    ;
}

/// What can be done as a task.
pub trait AdministrationApplicationPort: AdministrationImmediatePort {
    /// Says something in the hall.
    fn send_hall(&mut self, message: &str) -> (r: Result<(), String>)
        ensures
            final(self).calls() == old(self).calls().push(
                Exchange {
                    request: AdministrationRequest::SendHall(message@),
                    failure: failure_of(r),
                },
            ),
    ;

    /// Says several things in the hall, with a pause between each two.
    fn send_hall_batch(&mut self, messages: &[&str], delay_ms: u64) -> (r: Result<(), String>)
        ensures
            final(self).calls() == old(self).calls().push(
                Exchange {
                    request: AdministrationRequest::SendHallBatch {
                        messages: lines_of(messages@),
                        delay_ms,
                    },
                    failure: failure_of(r),
                },
            ),
    ;
}

/// How songs are requested.
pub open spec fn song_request_lines() -> Seq<Seq<char>> {
    seq![
        "点歌示例: @点歌/@AI点歌 歌名 歌手 伴奏,输入伴奏时优先匹配伴奏"@,
        "切换网易平台: @网易点歌/@网易云点歌 歌名 歌手 伴奏,默认为QQ平台"@,
        "可用 @QQ点歌/@网易点歌/@网易云点歌 指定来源,@AI点歌用于智能识别歌名歌手"@,
    ]
}

/// How the games are played.
pub open spec fn entertainment_lines() -> Seq<Seq<char>> {
    seq![
        "成语接龙: #接龙 成语;同音模式用 #同音接龙 成语;进行中用 #成语/#提示/#解释"@,
        "斗地主: #斗地主,#加入,#抢/#不抢,#牌组/#出牌组,#过;好友私聊 #手牌"@,
        "跑得快: #跑得快,#加入,#牌组/#出牌组,#过;好友私聊 #手牌"@,
        "海龟汤: #海龟汤;进行中 #状态/#结束;其他 #内容 作为问题"@,
        "海龟汤长答案: ##1第一段,##2第二段,最后发送##提交"@,
        "谁是卧底: #卧底/#卧底双;好友私聊 #加入;公屏 #开局/#状态/#退出"@,
        "谁是卧底: 描述用公屏 #内容;投票用好友私聊 #A 或 #投A;局外好友私聊 #谜底 查看答案"@,
    ]
}

/// How songs are requested.
pub fn song_request_help() -> (r: Vec<&'static str>)
    ensures
        lines_of(r@) == song_request_lines(),
{
    let lines = vec![
        "点歌示例: @点歌/@AI点歌 歌名 歌手 伴奏,输入伴奏时优先匹配伴奏",
        "切换网易平台: @网易点歌/@网易云点歌 歌名 歌手 伴奏,默认为QQ平台",
        "可用 @QQ点歌/@网易点歌/@网易云点歌 指定来源,@AI点歌用于智能识别歌名歌手",
    ];
    assert(lines_of(lines@) =~= song_request_lines());
    lines
}

/// How the games are played.
pub fn entertainment_help() -> (r: Vec<&'static str>)
    ensures
        lines_of(r@) == entertainment_lines(),
{
    let lines = vec![
        "成语接龙: #接龙 成语;同音模式用 #同音接龙 成语;进行中用 #成语/#提示/#解释",
        "斗地主: #斗地主,#加入,#抢/#不抢,#牌组/#出牌组,#过;好友私聊 #手牌",
        "跑得快: #跑得快,#加入,#牌组/#出牌组,#过;好友私聊 #手牌",
        "海龟汤: #海龟汤;进行中 #状态/#结束;其他 #内容 作为问题",
        "海龟汤长答案: ##1第一段,##2第二段,最后发送##提交",
        "谁是卧底: #卧底/#卧底双;好友私聊 #加入;公屏 #开局/#状态/#退出",
        "谁是卧底: 描述用公屏 #内容;投票用好友私聊 #A 或 #投A;局外好友私聊 #谜底 查看答案",
    ];
    assert(lines_of(lines@) =~= entertainment_lines());
    lines
}

/// Whether a command is left to a task after what was done at once.
#[derive(Clone, Copy, Debug, PartialEq, Eq, Structural)]
pub enum ImmediateAdministrationOutcome {
    ContinueFormal,
    Handled,
}

/// Carries out commands that administer the assistant.
#[derive(Clone, Copy, Debug, PartialEq, Eq, Structural)]
pub struct AdministrationApplication {
    pub help_batch_ms: u64,
}

/// The minutes after which the assistant leaves, where so many were asked for.
pub open spec fn idle_exit_after(minutes: u32) -> u32 {
    if minutes < IDLE_EXIT_MIN_MINUTES {
        IDLE_EXIT_MIN_MINUTES
    } else {
        minutes
    }
}

/// A note that a command was carried out.
pub open spec fn logged(context: ContextView, final_command: Seq<char>) -> AdministrationRequest {
    AdministrationRequest::LogExecuted { context, final_command }
}

/// What is asked of the outside to carry out a command as a task, in order.
pub open spec fn task_plan(
    context: ContextView,
    command: AdministrationCommandView,
    delay_ms: u64,
) -> Seq<AdministrationRequest> {
    match command {
        AdministrationCommandView::Help => seq![
            logged(context, "help"@),
            AdministrationRequest::SendHallBatch { messages: song_request_lines(), delay_ms },
        ],
        AdministrationCommandView::EntertainmentHelp => seq![
            logged(context, "entertainment help"@),
            AdministrationRequest::SendHallBatch { messages: entertainment_lines(), delay_ms },
        ],
        AdministrationCommandView::SetCommandsEnabled { enabled, .. } => seq![
            AdministrationRequest::SetCommandsEnabled(enabled),
            logged(
                context,
                if enabled {
                    "enable commands"@
                } else {
                    "disable commands"@
                },
            ),
            AdministrationRequest::SendHall(
                if enabled {
                    "管理员已启用大厅命令识别功能"@
                } else {
                    "管理员已禁用大厅命令识别功能"@
                },
            ),
        ],
        AdministrationCommandView::IdleExit { minutes } => seq![
            AdministrationRequest::ConfigureIdleExit(idle_exit_after(minutes)),
            logged(context, "idle exit "@ + decimal(minutes as nat)),
        ],
        AdministrationCommandView::ChatListenerMode(mode) => seq![
            logged(context, "chat listener "@ + mode_label(mode)),
        ],
    }
}

/// What is asked of the outside at once, in order.
pub open spec fn immediate_plan(context: ContextView, command: AdministrationCommandView) -> Seq<
    AdministrationRequest,
> {
    match dispatched(command) {
        AdministrationDispatch::ApplyCommandAvailabilityThenFormal { enabled } => seq![
            AdministrationRequest::SetCommandsEnabled(enabled),
        ],
        AdministrationDispatch::ConfigureIdleExit { minutes } => seq![
            AdministrationRequest::RecordCommandActivity,
            AdministrationRequest::ConfigureIdleExit(idle_exit_after(minutes)),
            logged(context, "idle exit "@ + decimal(minutes as nat)),
        ],
        _ => Seq::empty(),
    }
}

/// Whether a command was carried out at once as planned. Unless `strict`, only
/// the note that it was carried out may fail without the command failing.
pub open spec fn carried_out_at_once(
    before: Seq<Exchange<AdministrationRequest>>,
    after: Seq<Exchange<AdministrationRequest>>,
    context: ContextView,
    command: AdministrationCommandView,
    strict: bool,
    failure: Option<Seq<char>>,
) -> bool {
    let plan = immediate_plan(context, command);
    ||| carried_out(before, after, plan, failure) && (failure is Some && !strict ==> after.len()
        - before.len() < 3)
    ||| {
        &&& !strict
        &&& plan.len() == 3
        &&& failure is None
        &&& after.len() == before.len() + 3
        &&& carried_out(before, after, plan, after.last().failure)
    }
}

impl AdministrationApplication {
    /// An application that pauses so long between the lines of a help.
    pub fn new(help_batch_ms: u64) -> (r: Self)
        ensures
            r.help_batch_ms == help_batch_ms,
    {
        AdministrationApplication { help_batch_ms }
    }

    /// Carries out a command as a task.
    pub fn execute<P: AdministrationApplicationPort>(
        &self,
        context: &AdministrationCommandContext,
        command: &AdministrationCommand,
        port: &mut P,
    ) -> (r: Result<(), String>)
        ensures
            carried_out(
                old(port).calls(),
                final(port).calls(),
                task_plan(context@, command@, self.help_batch_ms),
                failure_of(r),
            ),
    {
        let ghost plan = task_plan(context@, command@, self.help_batch_ms);
        let ghost c0 = port.calls();
        match command {
            AdministrationCommand::Help => {
                if let Err(reason) = port.log_executed(context, "help") {
                    proof {
                        lemma_refused(c0, plan, reason@);
                    }
                    return Err(reason);
                }
                let ghost c1 = port.calls();
                let lines = song_request_help();
                let outcome = port.send_hall_batch(lines.as_slice(), self.help_batch_ms);
                proof {
                    lemma_last_request(c1, plan.skip(1), failure_of(outcome));
                    lemma_granted(c0, port.calls(), plan, failure_of(outcome));
                }
                outcome
            },
            AdministrationCommand::EntertainmentHelp => {
                if let Err(reason) = port.log_executed(context, "entertainment help") {
                    proof {
                        lemma_refused(c0, plan, reason@);
                    }
                    return Err(reason);
                }
                let ghost c1 = port.calls();
                let lines = entertainment_help();
                let outcome = port.send_hall_batch(lines.as_slice(), self.help_batch_ms);
                proof {
                    lemma_last_request(c1, plan.skip(1), failure_of(outcome));
                    lemma_granted(c0, port.calls(), plan, failure_of(outcome));
                }
                outcome
            },
            AdministrationCommand::SetCommandsEnabled { enabled, .. } => {
                if let Err(reason) = port.set_commands_enabled(*enabled) {
                    proof {
                        lemma_refused(c0, plan, reason@);
                    }
                    return Err(reason);
                }
                let ghost c1 = port.calls();
                let note = if *enabled {
                    "enable commands"
                } else {
                    "disable commands"
                };
                if let Err(reason) = port.log_executed(context, note) {
                    proof {
                        lemma_refused(c1, plan.skip(1), reason@);
                        lemma_granted(c0, port.calls(), plan, Some(reason@));
                    }
                    return Err(reason);
                }
                let ghost c2 = port.calls();
                let outcome = port.send_hall(
                    if *enabled {
                        "管理员已启用大厅命令识别功能"
                    } else {
                        "管理员已禁用大厅命令识别功能"
                    },
                );
                proof {
                    lemma_last_request(c2, plan.skip(1).skip(1), failure_of(outcome));
                    lemma_granted(c1, port.calls(), plan.skip(1), failure_of(outcome));
                    lemma_granted(c0, port.calls(), plan, failure_of(outcome));
                }
                outcome
            },
            AdministrationCommand::IdleExit { minutes } => {
                if let Err(reason) = port.configure_idle_exit(at_least_minimum(*minutes)) {
                    proof {
                        lemma_refused(c0, plan, reason@);
                    }
                    return Err(reason);
                }
                let ghost c1 = port.calls();
                let text = cat2("idle exit ", format_u64(*minutes as u64).as_str());
                let outcome = port.log_executed(context, text.as_str());
                proof {
                    lemma_last_request(c1, plan.skip(1), failure_of(outcome));
                    lemma_granted(c0, port.calls(), plan, failure_of(outcome));
                }
                outcome
            },
            AdministrationCommand::ChatListenerMode(mode) => {
                let text = cat2("chat listener ", mode.label());
                let outcome = port.log_executed(context, text.as_str());
                proof {
                    lemma_last_request(c0, plan, failure_of(outcome));
                }
                outcome
            },
        }
    }

    /// Carries out what a command asks for at once, and tells whether it is left
    /// to a task. Unless `propagate_log_error`, it does not matter whether the
    /// note that it was carried out could be written.
    pub fn apply_immediate<P: AdministrationImmediatePort>(
        &self,
        context: &AdministrationCommandContext,
        command: &AdministrationCommand,
        propagate_log_error: bool,
        port: &mut P,
    ) -> (r: Result<ImmediateAdministrationOutcome, String>)
        ensures
            carried_out_at_once(
                old(port).calls(),
                final(port).calls(),
                context@,
                command@,
                propagate_log_error,
                failure_of(r),
            ),
            r is Ok ==> r->Ok_0 == (if command@ is IdleExit {
                ImmediateAdministrationOutcome::Handled
            } else {
                ImmediateAdministrationOutcome::ContinueFormal
            }),
    {
        let ghost plan = immediate_plan(context@, command@);
        let ghost c0 = port.calls();
        match command.dispatch() {
            AdministrationDispatch::ApplyCommandAvailabilityThenFormal { enabled } => {
                let outcome = port.set_commands_enabled(enabled);
                proof {
                    lemma_last_request(c0, plan, failure_of(outcome));
                }
                match outcome {
                    Ok(()) => Ok(ImmediateAdministrationOutcome::ContinueFormal),
                    Err(reason) => Err(reason),
                }
            },
            AdministrationDispatch::ConfigureIdleExit { minutes } => {
                if let Err(reason) = port.record_command_activity() {
                    proof {
                        lemma_refused(c0, plan, reason@);
                    }
                    return Err(reason);
                }
                let ghost c1 = port.calls();
                if let Err(reason) = port.configure_idle_exit(at_least_minimum(minutes)) {
                    proof {
                        lemma_refused(c1, plan.skip(1), reason@);
                        lemma_granted(c0, port.calls(), plan, Some(reason@));
                    }
                    return Err(reason);
                }
                let ghost c2 = port.calls();
                let text = cat2("idle exit ", format_u64(minutes as u64).as_str());
                let outcome = port.log_executed(context, text.as_str());
                proof {
                    lemma_last_request(c2, plan.skip(1).skip(1), failure_of(outcome));
                    lemma_granted(c1, port.calls(), plan.skip(1), failure_of(outcome));
                    lemma_granted(c0, port.calls(), plan, failure_of(outcome));
                }
                if propagate_log_error {
                    if let Err(reason) = outcome {
                        return Err(reason);
                    }
                }
                Ok(ImmediateAdministrationOutcome::Handled)
            },
            _ => {
                proof {
                    lemma_all_made(c0, plan);
                }
                Ok(ImmediateAdministrationOutcome::ContinueFormal)
            },
        }
    }
}

/// However short a time is asked for, the outside is asked for no shorter than
/// the shortest time, both at once and as a task.
pub proof fn law_idle_exit_floor(
    context: ContextView,
    command: AdministrationCommandView,
    delay_ms: u64,
    i: int,
    minutes: u32,
)
    requires
        ({
            ||| 0 <= i < task_plan(context, command, delay_ms).len() && task_plan(
                context,
                command,
                delay_ms,
            )[i] == AdministrationRequest::ConfigureIdleExit(minutes)
            ||| 0 <= i < immediate_plan(context, command).len() && immediate_plan(
                context,
                command,
            )[i] == AdministrationRequest::ConfigureIdleExit(minutes)
        }),
    ensures
        minutes >= IDLE_EXIT_MIN_MINUTES,
{
}

/// At least the shortest time.
fn at_least_minimum(minutes: u32) -> (r: u32)
    ensures
        r == idle_exit_after(minutes),
{
    if minutes < IDLE_EXIT_MIN_MINUTES {
        IDLE_EXIT_MIN_MINUTES
    } else {
        minutes
    }
}

/// The last request of a plan.
proof fn lemma_last_request(
    before: Seq<Exchange<AdministrationRequest>>,
    plan: Seq<AdministrationRequest>,
    failure: Option<Seq<char>>,
)
    requires
        plan.len() == 1,
    ensures
        carried_out(before, before.push(Exchange { request: plan[0], failure }), plan, failure),
{
    match failure {
        Some(reason) => {
            lemma_refused(before, plan, reason);
        },
        None => {
            let after = before.push(Exchange { request: plan[0], failure: None });
            lemma_all_made(after, plan.skip(1));
            lemma_granted(before, after, plan, None);
        },
    }
}

/// What is done to switch commands is told: they are switched as was asked, noted as
/// that, and the hall hears of the same.
pub proof fn law_switch_is_told(context: ContextView, username: Seq<char>, delay_ms: u64)
    ensures
        task_plan(
            context,
            AdministrationCommandView::SetCommandsEnabled { enabled: true, username },
            delay_ms,
        ) == seq![
            AdministrationRequest::SetCommandsEnabled(true),
            AdministrationRequest::LogExecuted { context, final_command: "enable commands"@ },
            AdministrationRequest::SendHall("管理员已启用大厅命令识别功能"@),
        ],
        task_plan(
            context,
            AdministrationCommandView::SetCommandsEnabled { enabled: false, username },
            delay_ms,
        ) == seq![
            AdministrationRequest::SetCommandsEnabled(false),
            AdministrationRequest::LogExecuted { context, final_command: "disable commands"@ },
            AdministrationRequest::SendHall("管理员已禁用大厅命令识别功能"@),
        ],
{
}

/// Commands are switched before anything else: at once, and again as the first step of
/// the task, and both times to what was asked.
pub proof fn law_switched_at_once(
    context: ContextView,
    enabled: bool,
    username: Seq<char>,
    delay_ms: u64,
)
    ensures
        immediate_plan(
            context,
            AdministrationCommandView::SetCommandsEnabled { enabled, username },
        ) == seq![AdministrationRequest::SetCommandsEnabled(enabled)],
        task_plan(
            context,
            AdministrationCommandView::SetCommandsEnabled { enabled, username },
            delay_ms,
        )[0] == AdministrationRequest::SetCommandsEnabled(enabled),
{
}

/// The assistant is made to leave after the minutes that were asked for, though not
/// before fifteen: at once, behind a note that somebody was active, and with a note of
/// the minutes as they were asked for.
pub proof fn law_leaving_is_arranged(context: ContextView, minutes: u32, delay_ms: u64)
    ensures
        ({
            let command = AdministrationCommandView::IdleExit { minutes };
            let after: u32 = if minutes < 15 {
                15
            } else {
                minutes
            };
            &&& immediate_plan(context, command) == seq![
                AdministrationRequest::RecordCommandActivity,
                AdministrationRequest::ConfigureIdleExit(after),
                AdministrationRequest::LogExecuted {
                    context,
                    final_command: "idle exit "@ + decimal(minutes as nat),
                },
            ]
            &&& task_plan(context, command, delay_ms) == seq![
                AdministrationRequest::ConfigureIdleExit(after),
                AdministrationRequest::LogExecuted {
                    context,
                    final_command: "idle exit "@ + decimal(minutes as nat),
                },
            ]
        }),
{
}

/// Who asks for help is told all of it in one batch, with the pause between each two
/// lines: the help on songs has three lines, that on games seven.
pub proof fn law_help_is_told(context: ContextView, delay_ms: u64)
    ensures
        task_plan(context, AdministrationCommandView::Help, delay_ms) == seq![
            AdministrationRequest::LogExecuted { context, final_command: "help"@ },
            AdministrationRequest::SendHallBatch { messages: song_request_lines(), delay_ms },
        ],
        task_plan(context, AdministrationCommandView::EntertainmentHelp, delay_ms) == seq![
            AdministrationRequest::LogExecuted { context, final_command: "entertainment help"@ },
            AdministrationRequest::SendHallBatch { messages: entertainment_lines(), delay_ms },
        ],
        immediate_plan(context, AdministrationCommandView::Help).len() == 0,
        immediate_plan(context, AdministrationCommandView::EntertainmentHelp).len() == 0,
        song_request_lines().len() == 3,
        entertainment_lines().len() == 7,
{
}

/// A change of how chat is listened to is noted under what was asked for, and nothing is
/// done at once.
pub proof fn law_listening_is_noted(context: ContextView, delay_ms: u64)
    ensures
        task_plan(
            context,
            AdministrationCommandView::ChatListenerMode(ChatListenerModeCommand::Primary),
            delay_ms,
        ) == seq![
            AdministrationRequest::LogExecuted {
                context,
                final_command: "chat listener "@ + "一级"@,
            },
        ],
        task_plan(
            context,
            AdministrationCommandView::ChatListenerMode(ChatListenerModeCommand::Secondary),
            delay_ms,
        ) == seq![
            AdministrationRequest::LogExecuted {
                context,
                final_command: "chat listener "@ + "二级"@,
            },
        ],
        task_plan(
            context,
            AdministrationCommandView::ChatListenerMode(ChatListenerModeCommand::Status),
            delay_ms,
        ) == seq![
            AdministrationRequest::LogExecuted {
                context,
                final_command: "chat listener "@ + "状态"@,
            },
        ],
        forall|mode: ChatListenerModeCommand|
            #[trigger]
            immediate_plan(context, AdministrationCommandView::ChatListenerMode(mode)).len() == 0,
{
}

/// A note that cannot be written fails a command only where that is asked for; whatever
/// else fails does fail it.
pub proof fn law_notes_may_fail(
    before: Seq<Exchange<AdministrationRequest>>,
    after: Seq<Exchange<AdministrationRequest>>,
    context: ContextView,
    command: AdministrationCommandView,
    strict: bool,
    failure: Option<Seq<char>>,
)
    requires
        carried_out_at_once(before, after, context, command, strict, failure),
        after.len() > before.len(),
        after.last().failure is Some,
    ensures
        after.last().request !is LogExecuted ==> failure == after.last().failure,
        after.last().request is LogExecuted && strict ==> failure == after.last().failure,
        after.last().request is LogExecuted && !strict ==> failure is None,
{
    let k = after.len() - before.len() - 1;
    assert(after.last() == after[before.len() + k]);
}

} // verus!
