//! The fields of the section on times.
use vstd::prelude::*;
use crate::config::schema::declared_soundly;
use crate::config::schema::distinct_paths;
use crate::config::schema::field_views;
use crate::config::schema::idle_field;
use crate::config::schema::int_kind;
use crate::config::schema::int_of;
use crate::config::schema::live_field;
use crate::config::schema::no_secrets;
use crate::config::schema::ConfigFieldSchema;
use crate::config::schema::FieldView;
use crate::config::schema::MAX_STABLE_COUNT;
use crate::config::schema::MAX_TIMEOUT_MS;

verus! {

/// The fields of the section `timing`.
#[verifier::opaque]
pub open spec fn timing_fields() -> Seq<FieldView> {
    seq![
        live_field(
            "watchdog_restart_ms"@,
            "看门狗重启等待"@,
            int_kind(1, MAX_TIMEOUT_MS as int),
            "监听子进程异常退出后的重启等待时间，单位毫秒；父看门狗会在下次异常退出时直接读取最新值，无需重载子进程"@,
        ),
        live_field(
            "loop_idle_ms"@,
            "主循环空转间隔"@,
            int_kind(1, MAX_TIMEOUT_MS as int),
            "监听主循环空转间隔；脚本暂停或每轮扫描结束后等待多久再继续，单位毫秒；保存后立即生效"@,
        ),
        live_field(
            "chat_scan.fallback_ms"@,
            "聊天兜底扫描间隔"@,
            int_kind(1, MAX_TIMEOUT_MS as int),
            "聊天 OCR 兜底扫描间隔；画面没变化时按这个间隔强制扫描一次，单位毫秒；保存后立即生效"@,
        ),
        live_field(
            "chat_scan.change_debounce_ms"@,
            "变化去抖等待"@,
            int_kind(1, MAX_TIMEOUT_MS as int),
            "聊天变化后等待画面稳定再 OCR 的时间，单位毫秒；保存后立即生效"@,
        ),
        live_field(
            "chat_scan.change_cooldown_ms"@,
            "变化触发冷却"@,
            int_kind(1, MAX_TIMEOUT_MS as int),
            "两次变化触发 OCR 之间的最小间隔，单位毫秒；保存后立即生效"@,
        ),
        idle_field(
            "command.ui_timeout_ms"@,
            "返回一级界面超时"@,
            int_kind(1, MAX_TIMEOUT_MS as int),
            "执行命令前等待回到一级界面的最长时间，单位毫秒"@,
        ),
        idle_field(
            "command.return_retry_ms"@,
            "ESC 返回重试间隔"@,
            int_kind(1, MAX_TIMEOUT_MS as int),
            "返回一级界面时每次 ESC 后等待重新检测的基础时间；连续失败后会递增，超过 5 次固定为 2000ms"@,
        ),
        live_field(
            "command.post_settle_ms"@,
            "命令后稳定等待"@,
            int_kind(1, MAX_TIMEOUT_MS as int),
            "命令执行后等待聊天列表/动画稳定再复扫的时间，单位毫秒；保存后立即生效"@,
        ),
        live_field(
            "command.help_batch_ms"@,
            "帮助消息间隔"@,
            int_kind(1, MAX_TIMEOUT_MS as int),
            "@帮助及其他批量消息之间的间隔，单位毫秒；保存后立即生效"@,
        ),
        idle_field(
            "input.after_activate_ms"@,
            "激活后等待"@,
            int_kind(1, MAX_TIMEOUT_MS as int),
            "自动激活游戏窗口后等待前台窗口切换完成的时间，单位毫秒"@,
        ),
        idle_field(
            "input.focus_ms"@,
            "聚焦后等待"@,
            int_kind(1, MAX_TIMEOUT_MS as int),
            "手动调试工具在显式聚焦游戏窗口后的等待时间，单位毫秒"@,
        ),
        idle_field(
            "input.open_chat_ms"@,
            "打开聊天等待"@,
            int_kind(1, MAX_TIMEOUT_MS as int),
            "按回车打开聊天输入后的等待时间，单位毫秒"@,
        ),
        idle_field(
            "input.click_ms"@,
            "点击后等待"@,
            int_kind(1, MAX_TIMEOUT_MS as int),
            "每次点击聊天输入区域后的等待时间，单位毫秒"@,
        ),
        idle_field(
            "input.text_ms"@,
            "输入文本等待"@,
            int_kind(1, MAX_TIMEOUT_MS as int),
            "输入文本后到发送前的等待时间，单位毫秒"@,
        ),
        idle_field(
            "input.send_ms"@,
            "发送后稳定等待"@,
            int_kind(1, MAX_TIMEOUT_MS as int),
            "发送聊天后等待界面稳定的时间，单位毫秒"@,
        ),
        idle_field(
            "workflow.default_timeout_ms"@,
            "模板等待超时"@,
            int_kind(1, MAX_TIMEOUT_MS as int),
            "wait_template/click_template 默认等待模板出现的最长时间，单位毫秒"@,
        ),
        idle_field(
            "workflow.default_poll_ms"@,
            "模板轮询间隔"@,
            int_kind(1, MAX_TIMEOUT_MS as int),
            "等待模板出现时的轮询间隔，单位毫秒"@,
        ),
        idle_field(
            "workflow.default_step_wait_ms"@,
            "步骤间等待"@,
            int_kind(1, MAX_TIMEOUT_MS as int),
            "每个步骤执行后的默认等待时间，单位毫秒"@,
        ),
        idle_field(
            "hall.page_settle_ms"@,
            "大厅页面稳定等待"@,
            int_kind(1, MAX_TIMEOUT_MS as int),
            "进入/退出大厅页面后等待页面稳定的时间，单位毫秒"@,
        ),
        idle_field(
            "hall.ocr_sample_interval_ms"@,
            "大厅 OCR 采样间隔"@,
            int_kind(1, MAX_TIMEOUT_MS as int),
            "大厅信息多次 OCR 采样之间的间隔，单位毫秒"@,
        ),
        idle_field(
            "invite.open_chat_ms"@,
            "邀请打开面板等待"@,
            int_kind(1, MAX_TIMEOUT_MS as int),
            "邀请流程打开好友/聊天面板前后的固定等待，单位毫秒"@,
        ),
        idle_field(
            "invite.step_ms"@,
            "邀请步骤等待"@,
            int_kind(1, MAX_TIMEOUT_MS as int),
            "点击好友后发送私聊反馈、以及输入大厅密码前的短暂等待时间，单位毫秒"@,
        ),
        live_field(
            "invite.confirm_timeout_ms"@,
            "邀请确认超时"@,
            int_kind(1, MAX_TIMEOUT_MS as int),
            "非公共大厅邀请时等待邀请确认/拒绝命令的最长时间，单位毫秒；保存后立即生效"@,
        ),
        live_field(
            "invite.confirm_poll_ms"@,
            "邀请确认扫描间隔"@,
            int_kind(1, MAX_TIMEOUT_MS as int),
            "邀请确认扫描间隔，单位毫秒；保存后立即生效"@,
        ),
        idle_field(
            "moderation.vote_timeout_ms"@,
            "投票等待超时"@,
            int_kind(1, MAX_TIMEOUT_MS as int),
            "拉黑/屏蔽 UID 请求的好友私聊投票等待时间，单位毫秒"@,
        ),
        idle_field(
            "moderation.vote_poll_ms"@,
            "投票扫描间隔"@,
            int_kind(1, MAX_TIMEOUT_MS as int),
            "投票 OCR 扫描间隔，单位毫秒"@,
        ),
        idle_field(
            "moderation.search_result_timeout_ms"@,
            "搜索结果超时"@,
            int_kind(1, MAX_TIMEOUT_MS as int),
            "点击 UID 搜索按钮后等待搜索结果出现的最长时间，单位毫秒"@,
        ),
        idle_field(
            "moderation.confirm_wait_ms"@,
            "确认动作等待"@,
            int_kind(1, MAX_TIMEOUT_MS as int),
            "点击确认按钮后等待动作完成的时间，单位毫秒"@,
        ),
        live_field(
            "playback.status_poll_ms"@,
            "播放状态查询间隔"@,
            int_kind(1, MAX_TIMEOUT_MS as int),
            "点歌后查询播放状态的间隔，单位毫秒；保存后立即生效"@,
        ),
        live_field(
            "playback.monitor_tick_ms"@,
            "播放监控循环间隔"@,
            int_kind(1, MAX_TIMEOUT_MS as int),
            "播放监控线程循环间隔，单位毫秒；保存后立即生效"@,
        ),
        live_field(
            "playback.monitor_status_ms"@,
            "播放状态校准间隔"@,
            int_kind(1, MAX_TIMEOUT_MS as int),
            "播放结束监控向原生播放运行时校准状态的间隔，单位毫秒；保存后立即生效"@,
        ),
        idle_field(
            "playback.uri_stable_samples"@,
            "URI 稳定确认次数"@,
            int_kind(0, MAX_STABLE_COUNT as int),
            "播放 URI 连续确认次数；大于 1 时覆盖全局值，0 或 1 表示继承"@,
        ),
        idle_field(
            "playback.transport_stable_samples"@,
            "播放状态确认次数"@,
            int_kind(0, MAX_STABLE_COUNT as int),
            "播放状态连续确认次数；大于 1 时覆盖全局值，0 或 1 表示继承"@,
        ),
        idle_field(
            "playback.stale_timeout_ms"@,
            "陈旧观测保留超时"@,
            int_kind(1, MAX_TIMEOUT_MS as int),
            "播放器异常时保留上一条稳定观测的最长时间，必须为正整数，单位毫秒"@,
        ),
        idle_field(
            "decision.timeout_ms"@,
            "确认等待超时"@,
            int_kind(1, MAX_TIMEOUT_MS as int),
            "匹配失败/AI 自动匹配后等待用户确认的最长时间，单位毫秒"@,
        ),
        idle_field(
            "decision.poll_ms"@,
            "确认扫描间隔"@,
            int_kind(1, MAX_TIMEOUT_MS as int),
            "匹配失败/AI 自动匹配期间扫描确认命令的间隔，单位毫秒"@,
        ),
        idle_field(
            "external.volume_smooth_step_ms"@,
            "音量渐变步进间隔"@,
            int_kind(1, MAX_TIMEOUT_MS as int),
            "内置播放器音量渐变（防爆音）：每个平滑步进之间的等待时间，单位毫秒；异步执行不阻塞命令"@,
        ),
        idle_field(
            "external.ai_request_timeout_ms"@,
            "AI 请求超时"@,
            int_kind(1, MAX_TIMEOUT_MS as int),
            "AI HTTP 请求超时，单位毫秒"@,
        ),
    ]
}

/// The fields of the section `timing`.
pub fn timing_section() -> (r: Vec<ConfigFieldSchema>)
    ensures
        field_views(r@) == timing_fields(),
{
    let fields = vec![
        ConfigFieldSchema::db_live(
            "watchdog_restart_ms",
            "看门狗重启等待",
            int_of(1, MAX_TIMEOUT_MS),
            "监听子进程异常退出后的重启等待时间，单位毫秒；父看门狗会在下次异常退出时直接读取最新值，无需重载子进程",
        ),
        ConfigFieldSchema::db_live(
            "loop_idle_ms",
            "主循环空转间隔",
            int_of(1, MAX_TIMEOUT_MS),
            "监听主循环空转间隔；脚本暂停或每轮扫描结束后等待多久再继续，单位毫秒；保存后立即生效",
        ),
        ConfigFieldSchema::db_live(
            "chat_scan.fallback_ms",
            "聊天兜底扫描间隔",
            int_of(1, MAX_TIMEOUT_MS),
            "聊天 OCR 兜底扫描间隔；画面没变化时按这个间隔强制扫描一次，单位毫秒；保存后立即生效",
        ),
        ConfigFieldSchema::db_live(
            "chat_scan.change_debounce_ms",
            "变化去抖等待",
            int_of(1, MAX_TIMEOUT_MS),
            "聊天变化后等待画面稳定再 OCR 的时间，单位毫秒；保存后立即生效",
        ),
        ConfigFieldSchema::db_live(
            "chat_scan.change_cooldown_ms",
            "变化触发冷却",
            int_of(1, MAX_TIMEOUT_MS),
            "两次变化触发 OCR 之间的最小间隔，单位毫秒；保存后立即生效",
        ),
        ConfigFieldSchema::db_idle_reload(
            "command.ui_timeout_ms",
            "返回一级界面超时",
            int_of(1, MAX_TIMEOUT_MS),
            "执行命令前等待回到一级界面的最长时间，单位毫秒",
        ),
        ConfigFieldSchema::db_idle_reload(
            "command.return_retry_ms",
            "ESC 返回重试间隔",
            int_of(1, MAX_TIMEOUT_MS),
            "返回一级界面时每次 ESC 后等待重新检测的基础时间；连续失败后会递增，超过 5 次固定为 2000ms",
        ),
        ConfigFieldSchema::db_live(
            "command.post_settle_ms",
            "命令后稳定等待",
            int_of(1, MAX_TIMEOUT_MS),
            "命令执行后等待聊天列表/动画稳定再复扫的时间，单位毫秒；保存后立即生效",
        ),
        ConfigFieldSchema::db_live(
            "command.help_batch_ms",
            "帮助消息间隔",
            int_of(1, MAX_TIMEOUT_MS),
            "@帮助及其他批量消息之间的间隔，单位毫秒；保存后立即生效",
        ),
        ConfigFieldSchema::db_idle_reload(
            "input.after_activate_ms",
            "激活后等待",
            int_of(1, MAX_TIMEOUT_MS),
            "自动激活游戏窗口后等待前台窗口切换完成的时间，单位毫秒",
        ),
        ConfigFieldSchema::db_idle_reload(
            "input.focus_ms",
            "聚焦后等待",
            int_of(1, MAX_TIMEOUT_MS),
            "手动调试工具在显式聚焦游戏窗口后的等待时间，单位毫秒",
        ),
        ConfigFieldSchema::db_idle_reload(
            "input.open_chat_ms",
            "打开聊天等待",
            int_of(1, MAX_TIMEOUT_MS),
            "按回车打开聊天输入后的等待时间，单位毫秒",
        ),
        ConfigFieldSchema::db_idle_reload(
            "input.click_ms",
            "点击后等待",
            int_of(1, MAX_TIMEOUT_MS),
            "每次点击聊天输入区域后的等待时间，单位毫秒",
        ),
        ConfigFieldSchema::db_idle_reload(
            "input.text_ms",
            "输入文本等待",
            int_of(1, MAX_TIMEOUT_MS),
            "输入文本后到发送前的等待时间，单位毫秒",
        ),
        ConfigFieldSchema::db_idle_reload(
            "input.send_ms",
            "发送后稳定等待",
            int_of(1, MAX_TIMEOUT_MS),
            "发送聊天后等待界面稳定的时间，单位毫秒",
        ),
        ConfigFieldSchema::db_idle_reload(
            "workflow.default_timeout_ms",
            "模板等待超时",
            int_of(1, MAX_TIMEOUT_MS),
            "wait_template/click_template 默认等待模板出现的最长时间，单位毫秒",
        ),
        ConfigFieldSchema::db_idle_reload(
            "workflow.default_poll_ms",
            "模板轮询间隔",
            int_of(1, MAX_TIMEOUT_MS),
            "等待模板出现时的轮询间隔，单位毫秒",
        ),
        ConfigFieldSchema::db_idle_reload(
            "workflow.default_step_wait_ms",
            "步骤间等待",
            int_of(1, MAX_TIMEOUT_MS),
            "每个步骤执行后的默认等待时间，单位毫秒",
        ),
        ConfigFieldSchema::db_idle_reload(
            "hall.page_settle_ms",
            "大厅页面稳定等待",
            int_of(1, MAX_TIMEOUT_MS),
            "进入/退出大厅页面后等待页面稳定的时间，单位毫秒",
        ),
        ConfigFieldSchema::db_idle_reload(
            "hall.ocr_sample_interval_ms",
            "大厅 OCR 采样间隔",
            int_of(1, MAX_TIMEOUT_MS),
            "大厅信息多次 OCR 采样之间的间隔，单位毫秒",
        ),
        ConfigFieldSchema::db_idle_reload(
            "invite.open_chat_ms",
            "邀请打开面板等待",
            int_of(1, MAX_TIMEOUT_MS),
            "邀请流程打开好友/聊天面板前后的固定等待，单位毫秒",
        ),
        ConfigFieldSchema::db_idle_reload(
            "invite.step_ms",
            "邀请步骤等待",
            int_of(1, MAX_TIMEOUT_MS),
            "点击好友后发送私聊反馈、以及输入大厅密码前的短暂等待时间，单位毫秒",
        ),
        ConfigFieldSchema::db_live(
            "invite.confirm_timeout_ms",
            "邀请确认超时",
            int_of(1, MAX_TIMEOUT_MS),
            "非公共大厅邀请时等待邀请确认/拒绝命令的最长时间，单位毫秒；保存后立即生效",
        ),
        ConfigFieldSchema::db_live(
            "invite.confirm_poll_ms",
            "邀请确认扫描间隔",
            int_of(1, MAX_TIMEOUT_MS),
            "邀请确认扫描间隔，单位毫秒；保存后立即生效",
        ),
        ConfigFieldSchema::db_idle_reload(
            "moderation.vote_timeout_ms",
            "投票等待超时",
            int_of(1, MAX_TIMEOUT_MS),
            "拉黑/屏蔽 UID 请求的好友私聊投票等待时间，单位毫秒",
        ),
        ConfigFieldSchema::db_idle_reload(
            "moderation.vote_poll_ms",
            "投票扫描间隔",
            int_of(1, MAX_TIMEOUT_MS),
            "投票 OCR 扫描间隔，单位毫秒",
        ),
        ConfigFieldSchema::db_idle_reload(
            "moderation.search_result_timeout_ms",
            "搜索结果超时",
            int_of(1, MAX_TIMEOUT_MS),
            "点击 UID 搜索按钮后等待搜索结果出现的最长时间，单位毫秒",
        ),
        ConfigFieldSchema::db_idle_reload(
            "moderation.confirm_wait_ms",
            "确认动作等待",
            int_of(1, MAX_TIMEOUT_MS),
            "点击确认按钮后等待动作完成的时间，单位毫秒",
        ),
        ConfigFieldSchema::db_live(
            "playback.status_poll_ms",
            "播放状态查询间隔",
            int_of(1, MAX_TIMEOUT_MS),
            "点歌后查询播放状态的间隔，单位毫秒；保存后立即生效",
        ),
        ConfigFieldSchema::db_live(
            "playback.monitor_tick_ms",
            "播放监控循环间隔",
            int_of(1, MAX_TIMEOUT_MS),
            "播放监控线程循环间隔，单位毫秒；保存后立即生效",
        ),
        ConfigFieldSchema::db_live(
            "playback.monitor_status_ms",
            "播放状态校准间隔",
            int_of(1, MAX_TIMEOUT_MS),
            "播放结束监控向原生播放运行时校准状态的间隔，单位毫秒；保存后立即生效",
        ),
        ConfigFieldSchema::db_idle_reload(
            "playback.uri_stable_samples",
            "URI 稳定确认次数",
            int_of(0, MAX_STABLE_COUNT),
            "播放 URI 连续确认次数；大于 1 时覆盖全局值，0 或 1 表示继承",
        ),
        ConfigFieldSchema::db_idle_reload(
            "playback.transport_stable_samples",
            "播放状态确认次数",
            int_of(0, MAX_STABLE_COUNT),
            "播放状态连续确认次数；大于 1 时覆盖全局值，0 或 1 表示继承",
        ),
        ConfigFieldSchema::db_idle_reload(
            "playback.stale_timeout_ms",
            "陈旧观测保留超时",
            int_of(1, MAX_TIMEOUT_MS),
            "播放器异常时保留上一条稳定观测的最长时间，必须为正整数，单位毫秒",
        ),
        ConfigFieldSchema::db_idle_reload(
            "decision.timeout_ms",
            "确认等待超时",
            int_of(1, MAX_TIMEOUT_MS),
            "匹配失败/AI 自动匹配后等待用户确认的最长时间，单位毫秒",
        ),
        ConfigFieldSchema::db_idle_reload(
            "decision.poll_ms",
            "确认扫描间隔",
            int_of(1, MAX_TIMEOUT_MS),
            "匹配失败/AI 自动匹配期间扫描确认命令的间隔，单位毫秒",
        ),
        ConfigFieldSchema::db_idle_reload(
            "external.volume_smooth_step_ms",
            "音量渐变步进间隔",
            int_of(1, MAX_TIMEOUT_MS),
            "内置播放器音量渐变（防爆音）：每个平滑步进之间的等待时间，单位毫秒；异步执行不阻塞命令",
        ),
        ConfigFieldSchema::db_idle_reload(
            "external.ai_request_timeout_ms",
            "AI 请求超时",
            int_of(1, MAX_TIMEOUT_MS),
            "AI HTTP 请求超时，单位毫秒",
        ),
    ];
    proof {
        reveal(timing_fields);
        assert(field_views(fields@) =~= timing_fields());
    }
    fields
}

/// Which field of the section `timing` has a path.
spec fn timing_place(path: Seq<char>) -> int {
    if path.len() == 19 && path[0] == 'w' {
        0
    } else if path.len() == 12 {
        1
    } else if path.len() == 21 && path[1] == 'h' {
        2
    } else if path.len() == 28 && path[17] == 'd' {
        3
    } else if path.len() == 28 {
        4
    } else if path.len() == 21 && path[8] == 'u' {
        5
    } else if path.len() == 23 && path[0] == 'c' {
        6
    } else if path.len() == 22 && path[0] == 'c' {
        7
    } else if path.len() == 21 {
        8
    } else if path.len() == 23 && path[0] == 'i' {
        9
    } else if path.len() == 14 && path[6] == 'f' {
        10
    } else if path.len() == 18 {
        11
    } else if path.len() == 14 && path[2] == 'p' {
        12
    } else if path.len() == 13 && path[6] == 't' {
        13
    } else if path.len() == 13 {
        14
    } else if path.len() == 27 && path[0] == 'w' {
        15
    } else if path.len() == 24 && path[0] == 'w' {
        16
    } else if path.len() == 29 {
        17
    } else if path.len() == 19 && path[0] == 'h' {
        18
    } else if path.len() == 27 && path[0] == 'h' {
        19
    } else if path.len() == 19 && path[0] == 'i' {
        20
    } else if path.len() == 14 {
        21
    } else if path.len() == 25 && path[0] == 'i' {
        22
    } else if path.len() == 22 {
        23
    } else if path.len() == 26 && path[11] == 'v' {
        24
    } else if path.len() == 23 && path[0] == 'm' {
        25
    } else if path.len() == 35 {
        26
    } else if path.len() == 26 && path[0] == 'm' {
        27
    } else if path.len() == 23 {
        28
    } else if path.len() == 24 {
        29
    } else if path.len() == 26 {
        30
    } else if path.len() == 27 {
        31
    } else if path.len() == 33 {
        32
    } else if path.len() == 25 {
        33
    } else if path.len() == 19 {
        34
    } else if path.len() == 16 {
        35
    } else if path.len() == 30 && path[9] == 'v' {
        36
    } else {
        37
    }
}

/// The fields of the section `timing` are declared soundly, each path once.
pub proof fn lemma_timing_fields()
    ensures
        declared_soundly(timing_fields()),
        distinct_paths(timing_fields()),
        no_secrets(timing_fields()),
        timing_fields().len() == 38,
{
    reveal(timing_fields);
    let fields = timing_fields();
    assert(timing_place(fields[0].path) == 0) by {
        reveal_strlit("watchdog_restart_ms");
    }
    assert(timing_place(fields[1].path) == 1) by {
        reveal_strlit("loop_idle_ms");
    }
    assert(timing_place(fields[2].path) == 2) by {
        reveal_strlit("chat_scan.fallback_ms");
    }
    assert(timing_place(fields[3].path) == 3) by {
        reveal_strlit("chat_scan.change_debounce_ms");
    }
    assert(timing_place(fields[4].path) == 4) by {
        reveal_strlit("chat_scan.change_cooldown_ms");
    }
    assert(timing_place(fields[5].path) == 5) by {
        reveal_strlit("command.ui_timeout_ms");
    }
    assert(timing_place(fields[6].path) == 6) by {
        reveal_strlit("command.return_retry_ms");
    }
    assert(timing_place(fields[7].path) == 7) by {
        reveal_strlit("command.post_settle_ms");
    }
    assert(timing_place(fields[8].path) == 8) by {
        reveal_strlit("command.help_batch_ms");
    }
    assert(timing_place(fields[9].path) == 9) by {
        reveal_strlit("input.after_activate_ms");
    }
    assert(timing_place(fields[10].path) == 10) by {
        reveal_strlit("input.focus_ms");
    }
    assert(timing_place(fields[11].path) == 11) by {
        reveal_strlit("input.open_chat_ms");
    }
    assert(timing_place(fields[12].path) == 12) by {
        reveal_strlit("input.click_ms");
    }
    assert(timing_place(fields[13].path) == 13) by {
        reveal_strlit("input.text_ms");
    }
    assert(timing_place(fields[14].path) == 14) by {
        reveal_strlit("input.send_ms");
    }
    assert(timing_place(fields[15].path) == 15) by {
        reveal_strlit("workflow.default_timeout_ms");
    }
    assert(timing_place(fields[16].path) == 16) by {
        reveal_strlit("workflow.default_poll_ms");
    }
    assert(timing_place(fields[17].path) == 17) by {
        reveal_strlit("workflow.default_step_wait_ms");
    }
    assert(timing_place(fields[18].path) == 18) by {
        reveal_strlit("hall.page_settle_ms");
    }
    assert(timing_place(fields[19].path) == 19) by {
        reveal_strlit("hall.ocr_sample_interval_ms");
    }
    assert(timing_place(fields[20].path) == 20) by {
        reveal_strlit("invite.open_chat_ms");
    }
    assert(timing_place(fields[21].path) == 21) by {
        reveal_strlit("invite.step_ms");
    }
    assert(timing_place(fields[22].path) == 22) by {
        reveal_strlit("invite.confirm_timeout_ms");
    }
    assert(timing_place(fields[23].path) == 23) by {
        reveal_strlit("invite.confirm_poll_ms");
    }
    assert(timing_place(fields[24].path) == 24) by {
        reveal_strlit("moderation.vote_timeout_ms");
    }
    assert(timing_place(fields[25].path) == 25) by {
        reveal_strlit("moderation.vote_poll_ms");
    }
    assert(timing_place(fields[26].path) == 26) by {
        reveal_strlit("moderation.search_result_timeout_ms");
    }
    assert(timing_place(fields[27].path) == 27) by {
        reveal_strlit("moderation.confirm_wait_ms");
    }
    assert(timing_place(fields[28].path) == 28) by {
        reveal_strlit("playback.status_poll_ms");
    }
    assert(timing_place(fields[29].path) == 29) by {
        reveal_strlit("playback.monitor_tick_ms");
    }
    assert(timing_place(fields[30].path) == 30) by {
        reveal_strlit("playback.monitor_status_ms");
    }
    assert(timing_place(fields[31].path) == 31) by {
        reveal_strlit("playback.uri_stable_samples");
    }
    assert(timing_place(fields[32].path) == 32) by {
        reveal_strlit("playback.transport_stable_samples");
    }
    assert(timing_place(fields[33].path) == 33) by {
        reveal_strlit("playback.stale_timeout_ms");
    }
    assert(timing_place(fields[34].path) == 34) by {
        reveal_strlit("decision.timeout_ms");
    }
    assert(timing_place(fields[35].path) == 35) by {
        reveal_strlit("decision.poll_ms");
    }
    assert(timing_place(fields[36].path) == 36) by {
        reveal_strlit("external.volume_smooth_step_ms");
    }
    assert(timing_place(fields[37].path) == 37) by {
        reveal_strlit("external.ai_request_timeout_ms");
    }
    assert forall|i: int, j: int| 0 <= i < j < fields.len() implies (#[trigger] fields[i]).path
        != (#[trigger] fields[j]).path by {
        assert(timing_place(fields[i].path) == i);
        assert(timing_place(fields[j].path) == j);
    }
}
} // verus!
