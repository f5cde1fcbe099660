//! The fields of the sections on music.
use vstd::prelude::*;
use crate::config::schema::declared_soundly;
use crate::config::schema::distinct_paths;
use crate::config::schema::enum_of;
use crate::config::schema::field_views;
use crate::config::schema::float_kind;
use crate::config::schema::float_of;
use crate::config::schema::idle_field;
use crate::config::schema::int_kind;
use crate::config::schema::int_of;
use crate::config::schema::live_field;
use crate::config::schema::no_secrets;
use crate::config::schema::one_secret;
use crate::config::schema::playback_idle_field;
use crate::config::schema::ConfigFieldSchema;
use crate::config::schema::FieldKind;
use crate::config::schema::FieldView;
use crate::config::schema::KindView;
use crate::config::schema::MAX_STABLE_COUNT;
use crate::config::schema::MAX_TIMEOUT_MS;

verus! {

/// The fields of the section `playback`.
#[verifier::opaque]
pub open spec fn playback_fields() -> Seq<FieldView> {
    seq![
        playback_idle_field(
            "credential_directory"@,
            "凭据目录"@,
            KindView::Path,
            "账号凭据目录，敏感；三个平台凭据的版本化存储目录（相对 EXE 根目录）"@,
        ),
        idle_field(
            "login_helper_executable"@,
            "登录助手程序"@,
            KindView::Path,
            "受控登录使用的短生命周期助手"@,
        ),
        playback_idle_field(
            "kugou_api_executable"@,
            "酷狗 API sidecar"@,
            KindView::Path,
            "内置酷狗概念版 API sidecar；仅当程序目录下存在该文件时才自动启动"@,
        ),
        idle_field(
            "login_timeout_ms"@,
            "登录超时"@,
            int_kind(1, MAX_TIMEOUT_MS as int),
            "单次交互登录的最长时间，单位毫秒"@,
        ),
        playback_idle_field(
            "kugou_api_base_url"@,
            "酷狗 API 地址"@,
            KindView::String,
            "酷狗 KuGouMusicApi 服务地址；文档站不是 API 服务"@,
        ),
        idle_field(
            "audio_cache"@,
            "音频缓存"@,
            KindView::Object,
            "音频数据缓存整体配置；为 null 时不启用（默认）。启用后编辑下方子字段"@,
        ).nullable(),
        idle_field(
            "audio_cache.enabled"@,
            "启用音频缓存"@,
            KindView::Bool,
            "音频数据缓存（本地代理 + 磁盘缓存）；播放时音源先落本地缓存，重复播放与断网时直接从磁盘服务"@,
        ).optional_parent(),
        idle_field(
            "audio_cache.directory"@,
            "缓存目录"@,
            KindView::Path,
            "音频文件目录；相对路径基于程序 exe 所在目录，留空默认 deps/cache/audio"@,
        ).optional_parent(),
        idle_field(
            "audio_cache.max_bytes_mb"@,
            "磁盘占用上限"@,
            int_kind(1, 1_048_576),
            "磁盘占用上限，单位 MiB"@,
        ).optional_parent(),
        idle_field(
            "audio_cache.max_concurrent_downloads"@,
            "并发下载上限"@,
            int_kind(1, 1024),
            "同时进行的源站下载任务上限"@,
        ).optional_parent(),
        idle_field(
            "audio_cache.request_timeout_ms"@,
            "源站请求超时"@,
            int_kind(1, MAX_TIMEOUT_MS as int),
            "源站连接/响应超时，单位毫秒"@,
        ).optional_parent(),
        idle_field(
            "audio_cache.seek_wait_timeout_ms"@,
            "跳转等待超时"@,
            int_kind(1, MAX_TIMEOUT_MS as int),
            "请求尚未下载完成的位置时，等待下载推进的最长时间，单位毫秒"@,
        ).optional_parent(),
    ]
}

/// The fields of the section `playback`.
pub fn playback_section() -> (r: Vec<ConfigFieldSchema>)
    ensures
        field_views(r@) == playback_fields(),
{
    let fields = vec![
        ConfigFieldSchema::db_playback_idle_reload(
            "credential_directory",
            "凭据目录",
            FieldKind::Path,
            "账号凭据目录，敏感；三个平台凭据的版本化存储目录（相对 EXE 根目录）",
        ),
        ConfigFieldSchema::db_idle_reload(
            "login_helper_executable",
            "登录助手程序",
            FieldKind::Path,
            "受控登录使用的短生命周期助手",
        ),
        ConfigFieldSchema::db_playback_idle_reload(
            "kugou_api_executable",
            "酷狗 API sidecar",
            FieldKind::Path,
            "内置酷狗概念版 API sidecar；仅当程序目录下存在该文件时才自动启动",
        ),
        ConfigFieldSchema::db_idle_reload(
            "login_timeout_ms",
            "登录超时",
            int_of(1, MAX_TIMEOUT_MS),
            "单次交互登录的最长时间，单位毫秒",
        ),
        ConfigFieldSchema::db_playback_idle_reload(
            "kugou_api_base_url",
            "酷狗 API 地址",
            FieldKind::String,
            "酷狗 KuGouMusicApi 服务地址；文档站不是 API 服务",
        ),
        ConfigFieldSchema::db_idle_reload(
            "audio_cache",
            "音频缓存",
            FieldKind::Object,
            "音频数据缓存整体配置；为 null 时不启用（默认）。启用后编辑下方子字段",
        ).nullable(),
        ConfigFieldSchema::db_idle_reload(
            "audio_cache.enabled",
            "启用音频缓存",
            FieldKind::Bool,
            "音频数据缓存（本地代理 + 磁盘缓存）；播放时音源先落本地缓存，重复播放与断网时直接从磁盘服务",
        ).optional_parent(),
        ConfigFieldSchema::db_idle_reload(
            "audio_cache.directory",
            "缓存目录",
            FieldKind::Path,
            "音频文件目录；相对路径基于程序 exe 所在目录，留空默认 deps/cache/audio",
        ).optional_parent(),
        ConfigFieldSchema::db_idle_reload(
            "audio_cache.max_bytes_mb",
            "磁盘占用上限",
            int_of(1, 1_048_576),
            "磁盘占用上限，单位 MiB",
        ).optional_parent(),
        ConfigFieldSchema::db_idle_reload(
            "audio_cache.max_concurrent_downloads",
            "并发下载上限",
            int_of(1, 1024),
            "同时进行的源站下载任务上限",
        ).optional_parent(),
        ConfigFieldSchema::db_idle_reload(
            "audio_cache.request_timeout_ms",
            "源站请求超时",
            int_of(1, MAX_TIMEOUT_MS),
            "源站连接/响应超时，单位毫秒",
        ).optional_parent(),
        ConfigFieldSchema::db_idle_reload(
            "audio_cache.seek_wait_timeout_ms",
            "跳转等待超时",
            int_of(1, MAX_TIMEOUT_MS),
            "请求尚未下载完成的位置时，等待下载推进的最长时间，单位毫秒",
        ).optional_parent(),
    ];
    proof {
        reveal(playback_fields);
        assert(field_views(fields@) =~= playback_fields());
    }
    fields
}

/// Which field of the section `playback` has a path.
spec fn playback_place(path: Seq<char>) -> int {
    if path.len() == 20 && path[0] == 'c' {
        0
    } else if path.len() == 23 {
        1
    } else if path.len() == 20 {
        2
    } else if path.len() == 16 {
        3
    } else if path.len() == 18 {
        4
    } else if path.len() == 11 {
        5
    } else if path.len() == 19 {
        6
    } else if path.len() == 21 {
        7
    } else if path.len() == 24 {
        8
    } else if path.len() == 36 {
        9
    } else if path.len() == 30 {
        10
    } else {
        11
    }
}

/// The fields of the section `playback` are declared soundly, each path once.
pub proof fn lemma_playback_fields()
    ensures
        declared_soundly(playback_fields()),
        distinct_paths(playback_fields()),
        no_secrets(playback_fields()),
        playback_fields().len() == 12,
{
    reveal(playback_fields);
    let fields = playback_fields();
    assert(playback_place(fields[0].path) == 0) by {
        reveal_strlit("credential_directory");
    }
    assert(playback_place(fields[1].path) == 1) by {
        reveal_strlit("login_helper_executable");
    }
    assert(playback_place(fields[2].path) == 2) by {
        reveal_strlit("kugou_api_executable");
    }
    assert(playback_place(fields[3].path) == 3) by {
        reveal_strlit("login_timeout_ms");
    }
    assert(playback_place(fields[4].path) == 4) by {
        reveal_strlit("kugou_api_base_url");
    }
    assert(playback_place(fields[5].path) == 5) by {
        reveal_strlit("audio_cache");
    }
    assert(playback_place(fields[6].path) == 6) by {
        reveal_strlit("audio_cache.enabled");
    }
    assert(playback_place(fields[7].path) == 7) by {
        reveal_strlit("audio_cache.directory");
    }
    assert(playback_place(fields[8].path) == 8) by {
        reveal_strlit("audio_cache.max_bytes_mb");
    }
    assert(playback_place(fields[9].path) == 9) by {
        reveal_strlit("audio_cache.max_concurrent_downloads");
    }
    assert(playback_place(fields[10].path) == 10) by {
        reveal_strlit("audio_cache.request_timeout_ms");
    }
    assert(playback_place(fields[11].path) == 11) by {
        reveal_strlit("audio_cache.seek_wait_timeout_ms");
    }
    assert forall|i: int, j: int| 0 <= i < j < fields.len() implies (#[trigger] fields[i]).path
        != (#[trigger] fields[j]).path by {
        assert(playback_place(fields[i].path) == i);
        assert(playback_place(fields[j].path) == j);
    }
}

/// The fields of the section `queue`.
#[verifier::opaque]
pub open spec fn queue_fields() -> Seq<FieldView> {
    seq![
        idle_field(
            "max_size"@,
            "队列最大长度"@,
            int_kind(1, 100_000),
            "队列最大长度"@,
        ),
        idle_field(
            "pool_max_size"@,
            "播放池容量"@,
            int_kind(0, 1_000_000),
            "播放池最大容量；已确认播放过的点歌会进入播放池，队列播完后从播放池随机播放；0 表示禁用播放池"@,
        ),
        live_field(
            "protect_current_song_until_finished"@,
            "保护当前歌曲"@,
            KindView::Bool,
            "机器人确认播放的歌曲是否保护；true 时新点歌会排队，未结束只能用 @下一首 提前切换；歌曲播完由自然结束自动出队；保存后立即生效"@,
        ),
        live_field(
            "external_playback_protect_after_seconds"@,
            "外部播放保护时间"@,
            int_kind(0, 86_400),
            "非点歌歌曲连续正常播放多少秒后加入当前歌曲保护；0 表示外部播放永不保护，单位秒；保存后立即生效"@,
        ),
    ]
}

/// The fields of the section `queue`.
pub fn queue_section() -> (r: Vec<ConfigFieldSchema>)
    ensures
        field_views(r@) == queue_fields(),
{
    let fields = vec![
        ConfigFieldSchema::db_idle_reload(
            "max_size",
            "队列最大长度",
            int_of(1, 100_000),
            "队列最大长度",
        ),
        ConfigFieldSchema::db_idle_reload(
            "pool_max_size",
            "播放池容量",
            int_of(0, 1_000_000),
            "播放池最大容量；已确认播放过的点歌会进入播放池，队列播完后从播放池随机播放；0 表示禁用播放池",
        ),
        ConfigFieldSchema::db_live(
            "protect_current_song_until_finished",
            "保护当前歌曲",
            FieldKind::Bool,
            "机器人确认播放的歌曲是否保护；true 时新点歌会排队，未结束只能用 @下一首 提前切换；歌曲播完由自然结束自动出队；保存后立即生效",
        ),
        ConfigFieldSchema::db_live(
            "external_playback_protect_after_seconds",
            "外部播放保护时间",
            int_of(0, 86_400),
            "非点歌歌曲连续正常播放多少秒后加入当前歌曲保护；0 表示外部播放永不保护，单位秒；保存后立即生效",
        ),
    ];
    proof {
        reveal(queue_fields);
        assert(field_views(fields@) =~= queue_fields());
    }
    fields
}

/// Which field of the section `queue` has a path.
spec fn queue_place(path: Seq<char>) -> int {
    if path.len() == 8 {
        0
    } else if path.len() == 13 {
        1
    } else if path.len() == 35 {
        2
    } else {
        3
    }
}

/// The fields of the section `queue` are declared soundly, each path once.
pub proof fn lemma_queue_fields()
    ensures
        declared_soundly(queue_fields()),
        distinct_paths(queue_fields()),
        no_secrets(queue_fields()),
        queue_fields().len() == 4,
{
    reveal(queue_fields);
    let fields = queue_fields();
    assert(queue_place(fields[0].path) == 0) by {
        reveal_strlit("max_size");
    }
    assert(queue_place(fields[1].path) == 1) by {
        reveal_strlit("pool_max_size");
    }
    assert(queue_place(fields[2].path) == 2) by {
        reveal_strlit("protect_current_song_until_finished");
    }
    assert(queue_place(fields[3].path) == 3) by {
        reveal_strlit("external_playback_protect_after_seconds");
    }
    assert forall|i: int, j: int| 0 <= i < j < fields.len() implies (#[trigger] fields[i]).path
        != (#[trigger] fields[j]).path by {
        assert(queue_place(fields[i].path) == i);
        assert(queue_place(fields[j].path) == j);
    }
}

/// The fields of the section `song_dedup`.
#[verifier::opaque]
pub open spec fn song_dedup_fields() -> Seq<FieldView> {
    seq![
        live_field(
            "enabled"@,
            "启用去重"@,
            KindView::Bool,
            "长时间同歌去重；播放/入队前检查，确认播放成功后记录；保存后立即生效"@,
        ),
        live_field(
            "window_seconds"@,
            "统计窗口"@,
            int_kind(1, 86_400),
            "最近多少秒内统计同一首歌播放次数；保存后立即生效"@,
        ),
        live_field(
            "max_count"@,
            "最多播放次数"@,
            int_kind(1, MAX_STABLE_COUNT as int),
            "最近窗口内同一首歌最多允许播放次数；达到该值后拒绝或跳过；保存后立即生效"@,
        ),
        idle_field(
            "console_bypass"@,
            "控制台豁免"@,
            KindView::Bool,
            "控制台来源是否默认豁免长时间同歌去重"@,
        ),
        idle_field(
            "history_path"@,
            "历史记录路径"@,
            KindView::Path,
            "长时间同歌去重历史持久化路径（相对 EXE 根目录）"@,
        ),
    ]
}

/// The fields of the section `song_dedup`.
pub fn song_dedup_section() -> (r: Vec<ConfigFieldSchema>)
    ensures
        field_views(r@) == song_dedup_fields(),
{
    let fields = vec![
        ConfigFieldSchema::db_live(
            "enabled",
            "启用去重",
            FieldKind::Bool,
            "长时间同歌去重；播放/入队前检查，确认播放成功后记录；保存后立即生效",
        ),
        ConfigFieldSchema::db_live(
            "window_seconds",
            "统计窗口",
            int_of(1, 86_400),
            "最近多少秒内统计同一首歌播放次数；保存后立即生效",
        ),
        ConfigFieldSchema::db_live(
            "max_count",
            "最多播放次数",
            int_of(1, MAX_STABLE_COUNT),
            "最近窗口内同一首歌最多允许播放次数；达到该值后拒绝或跳过；保存后立即生效",
        ),
        ConfigFieldSchema::db_idle_reload(
            "console_bypass",
            "控制台豁免",
            FieldKind::Bool,
            "控制台来源是否默认豁免长时间同歌去重",
        ),
        ConfigFieldSchema::db_idle_reload(
            "history_path",
            "历史记录路径",
            FieldKind::Path,
            "长时间同歌去重历史持久化路径（相对 EXE 根目录）",
        ),
    ];
    proof {
        reveal(song_dedup_fields);
        assert(field_views(fields@) =~= song_dedup_fields());
    }
    fields
}

/// Which field of the section `song_dedup` has a path.
spec fn song_dedup_place(path: Seq<char>) -> int {
    if path.len() == 7 {
        0
    } else if path.len() == 14 && path[0] == 'w' {
        1
    } else if path.len() == 9 {
        2
    } else if path.len() == 14 {
        3
    } else {
        4
    }
}

/// The fields of the section `song_dedup` are declared soundly, each path once.
pub proof fn lemma_song_dedup_fields()
    ensures
        declared_soundly(song_dedup_fields()),
        distinct_paths(song_dedup_fields()),
        no_secrets(song_dedup_fields()),
        song_dedup_fields().len() == 5,
{
    reveal(song_dedup_fields);
    let fields = song_dedup_fields();
    assert(song_dedup_place(fields[0].path) == 0) by {
        reveal_strlit("enabled");
    }
    assert(song_dedup_place(fields[1].path) == 1) by {
        reveal_strlit("window_seconds");
    }
    assert(song_dedup_place(fields[2].path) == 2) by {
        reveal_strlit("max_count");
    }
    assert(song_dedup_place(fields[3].path) == 3) by {
        reveal_strlit("console_bypass");
    }
    assert(song_dedup_place(fields[4].path) == 4) by {
        reveal_strlit("history_path");
    }
    assert forall|i: int, j: int| 0 <= i < j < fields.len() implies (#[trigger] fields[i]).path
        != (#[trigger] fields[j]).path by {
        assert(song_dedup_place(fields[i].path) == i);
        assert(song_dedup_place(fields[j].path) == j);
    }
}

/// The fields of the section `ai`.
#[verifier::opaque]
pub open spec fn ai_fields() -> Seq<FieldView> {
    seq![
        idle_field(
            "provider"@,
            "服务商"@,
            KindView::Enum(seq![("mimo"@, "小米 MiMo"@), ("openai"@, "OpenAI"@), ("deepseek"@, "DeepSeek"@), ("custom"@, "自定义网关"@)]),
            "点歌 AI Provider。二段式配置：先选服务商，再按服务商填写参数；custom 必须填写 endpoint 与 model"@,
        ),
        idle_field(
            "api_key"@,
            "API Key"@,
            KindView::Secret,
            "API Key。留空表示点歌 AI 未启用；不要提交到 Git，也不要放进 URL 查询参数"@,
        ),
        idle_field(
            "endpoint"@,
            "接口地址"@,
            KindView::String,
            "完整的 Chat Completions 请求地址，必须以 /chat/completions 结尾；非 custom Provider 留空时使用默认 endpoint"@,
        ),
        idle_field(
            "model"@,
            "模型名"@,
            KindView::String,
            "模型名；点歌默认使用低延迟模型，custom 必须填写"@,
        ),
        idle_field(
            "http_proxy"@,
            "代理"@,
            KindView::String,
            "可选的独立 HTTP(S) 代理；只作用于点歌 AI，留空时沿用环境代理设置"@,
        ),
        idle_field(
            "extra_body"@,
            "第三方兼容字段"@,
            KindView::Object,
            "服务商专属请求参数。Web 对 MiMo/OpenAI/DeepSeek 提供官方字段结构化表单；只有 custom 使用自由 JSON。与程序固定字段同名时程序值优先"@,
        ),
    ]
}

/// The fields of the section `ai`.
pub fn ai_section() -> (r: Vec<ConfigFieldSchema>)
    ensures
        field_views(r@) == ai_fields(),
{
    let providers: Vec<(&'static str, &'static str)> = vec![("mimo", "小米 MiMo"), ("openai", "OpenAI"), ("deepseek", "DeepSeek"), ("custom", "自定义网关")];
    let providers_kind = enum_of(&providers);
    assert(providers_kind@ =~= KindView::Enum(seq![("mimo"@, "小米 MiMo"@), ("openai"@, "OpenAI"@), ("deepseek"@, "DeepSeek"@), ("custom"@, "自定义网关"@)]));
    let fields = vec![
        ConfigFieldSchema::db_idle_reload(
            "provider",
            "服务商",
            providers_kind,
            "点歌 AI Provider。二段式配置：先选服务商，再按服务商填写参数；custom 必须填写 endpoint 与 model",
        ),
        ConfigFieldSchema::db_idle_reload(
            "api_key",
            "API Key",
            FieldKind::Secret,
            "API Key。留空表示点歌 AI 未启用；不要提交到 Git，也不要放进 URL 查询参数",
        ),
        ConfigFieldSchema::db_idle_reload(
            "endpoint",
            "接口地址",
            FieldKind::String,
            "完整的 Chat Completions 请求地址，必须以 /chat/completions 结尾；非 custom Provider 留空时使用默认 endpoint",
        ),
        ConfigFieldSchema::db_idle_reload(
            "model",
            "模型名",
            FieldKind::String,
            "模型名；点歌默认使用低延迟模型，custom 必须填写",
        ),
        ConfigFieldSchema::db_idle_reload(
            "http_proxy",
            "代理",
            FieldKind::String,
            "可选的独立 HTTP(S) 代理；只作用于点歌 AI，留空时沿用环境代理设置",
        ),
        ConfigFieldSchema::db_idle_reload(
            "extra_body",
            "第三方兼容字段",
            FieldKind::Object,
            "服务商专属请求参数。Web 对 MiMo/OpenAI/DeepSeek 提供官方字段结构化表单；只有 custom 使用自由 JSON。与程序固定字段同名时程序值优先",
        ),
    ];
    proof {
        reveal(ai_fields);
        assert(field_views(fields@) =~= ai_fields());
    }
    fields
}

/// Which field of the section `ai` has a path.
spec fn ai_place(path: Seq<char>) -> int {
    if path.len() == 8 && path[0] == 'p' {
        0
    } else if path.len() == 7 {
        1
    } else if path.len() == 8 {
        2
    } else if path.len() == 5 {
        3
    } else if path.len() == 10 && path[0] == 'h' {
        4
    } else {
        5
    }
}

/// The fields of the section `ai` are declared soundly, each path once.
pub proof fn lemma_ai_fields()
    ensures
        declared_soundly(ai_fields()),
        distinct_paths(ai_fields()),
        one_secret(ai_fields(), 1),
        ai_fields()[1].path == "api_key"@,
        ai_fields().len() == 6,
{
    reveal(ai_fields);
    let fields = ai_fields();
    assert(ai_place(fields[0].path) == 0) by {
        reveal_strlit("provider");
    }
    assert(ai_place(fields[1].path) == 1) by {
        reveal_strlit("api_key");
    }
    assert(ai_place(fields[2].path) == 2) by {
        reveal_strlit("endpoint");
    }
    assert(ai_place(fields[3].path) == 3) by {
        reveal_strlit("model");
    }
    assert(ai_place(fields[4].path) == 4) by {
        reveal_strlit("http_proxy");
    }
    assert(ai_place(fields[5].path) == 5) by {
        reveal_strlit("extra_body");
    }
    assert forall|i: int, j: int| 0 <= i < j < fields.len() implies (#[trigger] fields[i]).path
        != (#[trigger] fields[j]).path by {
        assert(ai_place(fields[i].path) == i);
        assert(ai_place(fields[j].path) == j);
    }
}

/// The fields of the section `song_review`.
#[verifier::opaque]
pub open spec fn song_review_fields() -> Seq<FieldView> {
    seq![
        idle_field(
            "enabled"@,
            "启用审核"@,
            KindView::Bool,
            "候选歌曲 AI 审核；只审核最终候选歌曲/URI，控制台来源最高权限免审"@,
        ),
        idle_field(
            "max_allowed_level"@,
            "最高允许等级"@,
            int_kind(1, 10),
            "审核返回 level 为 1-10，超过该阈值会拒绝点歌"@,
        ),
        idle_field(
            "failure_policy"@,
            "失败策略"@,
            KindView::Enum(seq![("reject"@, "拒绝"@), ("allow"@, "放行"@)]),
            "审核服务多次失败后的策略：reject 拒绝，allow 放行并写警告日志"@,
        ),
        idle_field(
            "retry_count"@,
            "重试次数"@,
            int_kind(0, MAX_STABLE_COUNT as int),
            "审核请求失败后的重试次数；实际最多请求 retry_count + 1 次"@,
        ),
        idle_field(
            "retry_delay_ms"@,
            "重试间隔"@,
            int_kind(0, MAX_TIMEOUT_MS as int),
            "审核重试间隔，单位毫秒"@,
        ),
        idle_field(
            "reply_reason_max_chars"@,
            "拒绝原因字符上限"@,
            int_kind(1, 10_000),
            "游戏内拒绝原因最多显示的字符数；完整原因写日志"@,
        ),
        idle_field(
            "policy_prompt"@,
            "审核条件"@,
            KindView::String,
            "审核条件；可以按房间氛围修改，但不要要求模型改变 JSON 输出格式"@,
        ),
        idle_field(
            "custom_prompt"@,
            "追加规则"@,
            KindView::String,
            "追加审核规则；会附加在 policy_prompt 后面，用于临时补充口径"@,
        ),
        idle_field(
            "provider.endpoint"@,
            "审核接口地址"@,
            KindView::String,
            "OpenAI 官方完整 Responses 地址；程序会固定要求 web_search"@,
        ),
        idle_field(
            "provider.api_key"@,
            "审核 API Key"@,
            KindView::Secret,
            "Responses API 使用 Authorization: Bearer <key>；不要提交到 Git"@,
        ),
        idle_field(
            "provider.model"@,
            "审核模型"@,
            KindView::String,
            "高能力审核模型；启用审核时必须同时填写 api_key"@,
        ),
        idle_field(
            "provider.http_proxy"@,
            "审核代理"@,
            KindView::String,
            "可选的独立 HTTP(S) 代理；只作用于歌曲审核，留空时沿用环境代理设置"@,
        ),
        idle_field(
            "provider.extra_body"@,
            "第三方兼容字段"@,
            KindView::Object,
            "第三方兼容字段；必须是 JSON object，与官方字段同名时官方值覆盖"@,
        ),
    ]
}

/// The fields of the section `song_review`.
pub fn song_review_section() -> (r: Vec<ConfigFieldSchema>)
    ensures
        field_views(r@) == song_review_fields(),
{
    let policies: Vec<(&'static str, &'static str)> = vec![("reject", "拒绝"), ("allow", "放行")];
    let policies_kind = enum_of(&policies);
    assert(policies_kind@ =~= KindView::Enum(seq![("reject"@, "拒绝"@), ("allow"@, "放行"@)]));
    let fields = vec![
        ConfigFieldSchema::db_idle_reload(
            "enabled",
            "启用审核",
            FieldKind::Bool,
            "候选歌曲 AI 审核；只审核最终候选歌曲/URI，控制台来源最高权限免审",
        ),
        ConfigFieldSchema::db_idle_reload(
            "max_allowed_level",
            "最高允许等级",
            int_of(1, 10),
            "审核返回 level 为 1-10，超过该阈值会拒绝点歌",
        ),
        ConfigFieldSchema::db_idle_reload(
            "failure_policy",
            "失败策略",
            policies_kind,
            "审核服务多次失败后的策略：reject 拒绝，allow 放行并写警告日志",
        ),
        ConfigFieldSchema::db_idle_reload(
            "retry_count",
            "重试次数",
            int_of(0, MAX_STABLE_COUNT),
            "审核请求失败后的重试次数；实际最多请求 retry_count + 1 次",
        ),
        ConfigFieldSchema::db_idle_reload(
            "retry_delay_ms",
            "重试间隔",
            int_of(0, MAX_TIMEOUT_MS),
            "审核重试间隔，单位毫秒",
        ),
        ConfigFieldSchema::db_idle_reload(
            "reply_reason_max_chars",
            "拒绝原因字符上限",
            int_of(1, 10_000),
            "游戏内拒绝原因最多显示的字符数；完整原因写日志",
        ),
        ConfigFieldSchema::db_idle_reload(
            "policy_prompt",
            "审核条件",
            FieldKind::String,
            "审核条件；可以按房间氛围修改，但不要要求模型改变 JSON 输出格式",
        ),
        ConfigFieldSchema::db_idle_reload(
            "custom_prompt",
            "追加规则",
            FieldKind::String,
            "追加审核规则；会附加在 policy_prompt 后面，用于临时补充口径",
        ),
        ConfigFieldSchema::db_idle_reload(
            "provider.endpoint",
            "审核接口地址",
            FieldKind::String,
            "OpenAI 官方完整 Responses 地址；程序会固定要求 web_search",
        ),
        ConfigFieldSchema::db_idle_reload(
            "provider.api_key",
            "审核 API Key",
            FieldKind::Secret,
            "Responses API 使用 Authorization: Bearer <key>；不要提交到 Git",
        ),
        ConfigFieldSchema::db_idle_reload(
            "provider.model",
            "审核模型",
            FieldKind::String,
            "高能力审核模型；启用审核时必须同时填写 api_key",
        ),
        ConfigFieldSchema::db_idle_reload(
            "provider.http_proxy",
            "审核代理",
            FieldKind::String,
            "可选的独立 HTTP(S) 代理；只作用于歌曲审核，留空时沿用环境代理设置",
        ),
        ConfigFieldSchema::db_idle_reload(
            "provider.extra_body",
            "第三方兼容字段",
            FieldKind::Object,
            "第三方兼容字段；必须是 JSON object，与官方字段同名时官方值覆盖",
        ),
    ];
    proof {
        reveal(song_review_fields);
        assert(field_views(fields@) =~= song_review_fields());
    }
    fields
}

/// Which field of the section `song_review` has a path.
spec fn song_review_place(path: Seq<char>) -> int {
    if path.len() == 7 {
        0
    } else if path.len() == 17 && path[0] == 'm' {
        1
    } else if path.len() == 14 && path[0] == 'f' {
        2
    } else if path.len() == 11 {
        3
    } else if path.len() == 14 && path[0] == 'r' {
        4
    } else if path.len() == 22 {
        5
    } else if path.len() == 13 && path[0] == 'p' {
        6
    } else if path.len() == 13 {
        7
    } else if path.len() == 17 {
        8
    } else if path.len() == 16 {
        9
    } else if path.len() == 14 {
        10
    } else if path.len() == 19 && path[9] == 'h' {
        11
    } else {
        12
    }
}

/// The fields of the section `song_review` are declared soundly, each path once.
pub proof fn lemma_song_review_fields()
    ensures
        declared_soundly(song_review_fields()),
        distinct_paths(song_review_fields()),
        one_secret(song_review_fields(), 9),
        song_review_fields()[9].path == "provider.api_key"@,
        song_review_fields().len() == 13,
{
    reveal(song_review_fields);
    let fields = song_review_fields();
    assert(song_review_place(fields[0].path) == 0) by {
        reveal_strlit("enabled");
    }
    assert(song_review_place(fields[1].path) == 1) by {
        reveal_strlit("max_allowed_level");
    }
    assert(song_review_place(fields[2].path) == 2) by {
        reveal_strlit("failure_policy");
    }
    assert(song_review_place(fields[3].path) == 3) by {
        reveal_strlit("retry_count");
    }
    assert(song_review_place(fields[4].path) == 4) by {
        reveal_strlit("retry_delay_ms");
    }
    assert(song_review_place(fields[5].path) == 5) by {
        reveal_strlit("reply_reason_max_chars");
    }
    assert(song_review_place(fields[6].path) == 6) by {
        reveal_strlit("policy_prompt");
    }
    assert(song_review_place(fields[7].path) == 7) by {
        reveal_strlit("custom_prompt");
    }
    assert(song_review_place(fields[8].path) == 8) by {
        reveal_strlit("provider.endpoint");
    }
    assert(song_review_place(fields[9].path) == 9) by {
        reveal_strlit("provider.api_key");
    }
    assert(song_review_place(fields[10].path) == 10) by {
        reveal_strlit("provider.model");
    }
    assert(song_review_place(fields[11].path) == 11) by {
        reveal_strlit("provider.http_proxy");
    }
    assert(song_review_place(fields[12].path) == 12) by {
        reveal_strlit("provider.extra_body");
    }
    assert forall|i: int, j: int| 0 <= i < j < fields.len() implies (#[trigger] fields[i]).path
        != (#[trigger] fields[j]).path by {
        assert(song_review_place(fields[i].path) == i);
        assert(song_review_place(fields[j].path) == j);
    }
}

/// The fields of the section `matching`.
#[verifier::opaque]
pub open spec fn matching_fields() -> Seq<FieldView> {
    seq![
        live_field(
            "min_song_name_score"@,
            "歌名最低分数"@,
            float_kind(0, 10),
            "歌名最低匹配分数；保存后立即生效"@,
        ),
        live_field(
            "short_chinese_song_max_miss"@,
            "短中文歌名漏字上限"@,
            int_kind(0, 100),
            "4 字以内中文歌名最多允许漏字数；保存后立即生效"@,
        ),
        live_field(
            "long_chinese_song_min_score"@,
            "长中文歌名最低比例"@,
            float_kind(0, 10),
            "长中文歌名最低命中比例；保存后立即生效"@,
        ),
        live_field(
            "max_ocr_noise_chars"@,
            "OCR 噪声字符上限"@,
            int_kind(0, 100),
            "完整歌名后最多忽略的 OCR 噪声字符数；保存后立即生效"@,
        ),
        live_field(
            "enable_fuzzy_singer"@,
            "歌手模糊匹配"@,
            KindView::Bool,
            "是否启用中文歌手模糊匹配；保存后立即生效"@,
        ),
        live_field(
            "short_chinese_singer_max_miss"@,
            "短中文歌手漏字上限"@,
            int_kind(0, 100),
            "4 字以内中文歌手最多允许漏字数；保存后立即生效"@,
        ),
        live_field(
            "long_chinese_singer_min_score"@,
            "长中文歌手最低比例"@,
            float_kind(0, 10),
            "长中文歌手最低命中比例；保存后立即生效"@,
        ),
        live_field(
            "en_max_edit_fraction"@,
            "英文歌名编辑距离上限"@,
            float_kind(0, 10),
            "英文歌名编辑距离占比上限；保存后立即生效"@,
        ),
        live_field(
            "en_singer_max_edit_fraction"@,
            "英文歌手编辑距离上限"@,
            float_kind(0, 10),
            "英文歌手编辑距离占比上限；保存后立即生效"@,
        ),
    ]
}

/// The fields of the section `matching`.
pub fn matching_section() -> (r: Vec<ConfigFieldSchema>)
    ensures
        field_views(r@) == matching_fields(),
{
    let fields = vec![
        ConfigFieldSchema::db_live(
            "min_song_name_score",
            "歌名最低分数",
            float_of(0, 10),
            "歌名最低匹配分数；保存后立即生效",
        ),
        ConfigFieldSchema::db_live(
            "short_chinese_song_max_miss",
            "短中文歌名漏字上限",
            int_of(0, 100),
            "4 字以内中文歌名最多允许漏字数；保存后立即生效",
        ),
        ConfigFieldSchema::db_live(
            "long_chinese_song_min_score",
            "长中文歌名最低比例",
            float_of(0, 10),
            "长中文歌名最低命中比例；保存后立即生效",
        ),
        ConfigFieldSchema::db_live(
            "max_ocr_noise_chars",
            "OCR 噪声字符上限",
            int_of(0, 100),
            "完整歌名后最多忽略的 OCR 噪声字符数；保存后立即生效",
        ),
        ConfigFieldSchema::db_live(
            "enable_fuzzy_singer",
            "歌手模糊匹配",
            FieldKind::Bool,
            "是否启用中文歌手模糊匹配；保存后立即生效",
        ),
        ConfigFieldSchema::db_live(
            "short_chinese_singer_max_miss",
            "短中文歌手漏字上限",
            int_of(0, 100),
            "4 字以内中文歌手最多允许漏字数；保存后立即生效",
        ),
        ConfigFieldSchema::db_live(
            "long_chinese_singer_min_score",
            "长中文歌手最低比例",
            float_of(0, 10),
            "长中文歌手最低命中比例；保存后立即生效",
        ),
        ConfigFieldSchema::db_live(
            "en_max_edit_fraction",
            "英文歌名编辑距离上限",
            float_of(0, 10),
            "英文歌名编辑距离占比上限；保存后立即生效",
        ),
        ConfigFieldSchema::db_live(
            "en_singer_max_edit_fraction",
            "英文歌手编辑距离上限",
            float_of(0, 10),
            "英文歌手编辑距离占比上限；保存后立即生效",
        ),
    ];
    proof {
        reveal(matching_fields);
        assert(field_views(fields@) =~= matching_fields());
    }
    fields
}

/// Which field of the section `matching` has a path.
spec fn matching_place(path: Seq<char>) -> int {
    if path.len() == 19 && path[1] == 'i' {
        0
    } else if path.len() == 27 && path[0] == 's' {
        1
    } else if path.len() == 27 && path[0] == 'l' {
        2
    } else if path.len() == 19 && path[0] == 'm' {
        3
    } else if path.len() == 19 {
        4
    } else if path.len() == 29 && path[0] == 's' {
        5
    } else if path.len() == 29 {
        6
    } else if path.len() == 20 {
        7
    } else {
        8
    }
}

/// The fields of the section `matching` are declared soundly, each path once.
pub proof fn lemma_matching_fields()
    ensures
        declared_soundly(matching_fields()),
        distinct_paths(matching_fields()),
        no_secrets(matching_fields()),
        matching_fields().len() == 9,
{
    reveal(matching_fields);
    let fields = matching_fields();
    assert(matching_place(fields[0].path) == 0) by {
        reveal_strlit("min_song_name_score");
    }
    assert(matching_place(fields[1].path) == 1) by {
        reveal_strlit("short_chinese_song_max_miss");
    }
    assert(matching_place(fields[2].path) == 2) by {
        reveal_strlit("long_chinese_song_min_score");
    }
    assert(matching_place(fields[3].path) == 3) by {
        reveal_strlit("max_ocr_noise_chars");
    }
    assert(matching_place(fields[4].path) == 4) by {
        reveal_strlit("enable_fuzzy_singer");
    }
    assert(matching_place(fields[5].path) == 5) by {
        reveal_strlit("short_chinese_singer_max_miss");
    }
    assert(matching_place(fields[6].path) == 6) by {
        reveal_strlit("long_chinese_singer_min_score");
    }
    assert(matching_place(fields[7].path) == 7) by {
        reveal_strlit("en_max_edit_fraction");
    }
    assert(matching_place(fields[8].path) == 8) by {
        reveal_strlit("en_singer_max_edit_fraction");
    }
    assert forall|i: int, j: int| 0 <= i < j < fields.len() implies (#[trigger] fields[i]).path
        != (#[trigger] fields[j]).path by {
        assert(matching_place(fields[i].path) == i);
        assert(matching_place(fields[j].path) == j);
    }
}
} // verus!
