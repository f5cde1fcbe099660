//! The fields of the sections on games.
use vstd::prelude::*;
use crate::config::schema::declared_soundly;
use crate::config::schema::distinct_paths;
use crate::config::schema::field_views;
use crate::config::schema::idle_field;
use crate::config::schema::int_kind;
use crate::config::schema::int_of;
use crate::config::schema::no_secrets;
use crate::config::schema::one_secret;
use crate::config::schema::ConfigFieldSchema;
use crate::config::schema::FieldKind;
use crate::config::schema::FieldView;
use crate::config::schema::KindView;
use crate::config::schema::MAX_STABLE_COUNT;
use crate::config::schema::MAX_TIMEOUT_MS;

verus! {

/// The fields of the section `idiom_chain`.
#[verifier::opaque]
pub open spec fn idiom_chain_fields() -> Seq<FieldView> {
    seq![
        idle_field(
            "enabled"@,
            "启用接龙"@,
            KindView::Bool,
            "是否启用项目内置成语词库的接龙功能"@,
        ),
        idle_field(
            "lexicon_path"@,
            "词库路径"@,
            KindView::Path,
            "成语词库路径；相对路径以主程序 EXE 所在目录为基准"@,
        ),
        idle_field(
            "history_limit"@,
            "历史上限"@,
            int_kind(1, 10_000),
            "最多保留多少个最近成语用于会话历史；本局完整已用集合始终禁止重复"@,
        ),
        idle_field(
            "idle_timeout_seconds"@,
            "空闲超时"@,
            int_kind(1, 86_400),
            "多久无人接词就自动结束本局；启用接龙时须大于 0，单位秒"@,
        ),
        idle_field(
            "allow_consecutive_player"@,
            "允许连续接词"@,
            KindView::Bool,
            "false 时开局玩家不能连续接词"@,
        ),
        idle_field(
            "allow_anyone_stop"@,
            "允许任意结束"@,
            KindView::Bool,
            "false 时仅开局玩家可使用 #结束"@,
        ),
    ]
}

/// The fields of the section `idiom_chain`.
pub fn idiom_chain_section() -> (r: Vec<ConfigFieldSchema>)
    ensures
        field_views(r@) == idiom_chain_fields(),
{
    let fields = vec![
        ConfigFieldSchema::db_idle_reload(
            "enabled",
            "启用接龙",
            FieldKind::Bool,
            "是否启用项目内置成语词库的接龙功能",
        ),
        ConfigFieldSchema::db_idle_reload(
            "lexicon_path",
            "词库路径",
            FieldKind::Path,
            "成语词库路径；相对路径以主程序 EXE 所在目录为基准",
        ),
        ConfigFieldSchema::db_idle_reload(
            "history_limit",
            "历史上限",
            int_of(1, 10_000),
            "最多保留多少个最近成语用于会话历史；本局完整已用集合始终禁止重复",
        ),
        ConfigFieldSchema::db_idle_reload(
            "idle_timeout_seconds",
            "空闲超时",
            int_of(1, 86_400),
            "多久无人接词就自动结束本局；启用接龙时须大于 0，单位秒",
        ),
        ConfigFieldSchema::db_idle_reload(
            "allow_consecutive_player",
            "允许连续接词",
            FieldKind::Bool,
            "false 时开局玩家不能连续接词",
        ),
        ConfigFieldSchema::db_idle_reload(
            "allow_anyone_stop",
            "允许任意结束",
            FieldKind::Bool,
            "false 时仅开局玩家可使用 #结束",
        ),
    ];
    proof {
        reveal(idiom_chain_fields);
        assert(field_views(fields@) =~= idiom_chain_fields());
    }
    fields
}

/// Which field of the section `idiom_chain` has a path.
spec fn idiom_chain_place(path: Seq<char>) -> int {
    if path.len() == 7 {
        0
    } else if path.len() == 12 {
        1
    } else if path.len() == 13 {
        2
    } else if path.len() == 20 {
        3
    } else if path.len() == 24 {
        4
    } else {
        5
    }
}

/// The fields of the section `idiom_chain` are declared soundly, each path once.
pub proof fn lemma_idiom_chain_fields()
    ensures
        declared_soundly(idiom_chain_fields()),
        distinct_paths(idiom_chain_fields()),
        no_secrets(idiom_chain_fields()),
        idiom_chain_fields().len() == 6,
{
    reveal(idiom_chain_fields);
    let fields = idiom_chain_fields();
    assert(idiom_chain_place(fields[0].path) == 0) by {
        reveal_strlit("enabled");
    }
    assert(idiom_chain_place(fields[1].path) == 1) by {
        reveal_strlit("lexicon_path");
    }
    assert(idiom_chain_place(fields[2].path) == 2) by {
        reveal_strlit("history_limit");
    }
    assert(idiom_chain_place(fields[3].path) == 3) by {
        reveal_strlit("idle_timeout_seconds");
    }
    assert(idiom_chain_place(fields[4].path) == 4) by {
        reveal_strlit("allow_consecutive_player");
    }
    assert(idiom_chain_place(fields[5].path) == 5) by {
        reveal_strlit("allow_anyone_stop");
    }
    assert forall|i: int, j: int| 0 <= i < j < fields.len() implies (#[trigger] fields[i]).path
        != (#[trigger] fields[j]).path by {
        assert(idiom_chain_place(fields[i].path) == i);
        assert(idiom_chain_place(fields[j].path) == j);
    }
}

/// The fields of the section `landlord`.
#[verifier::opaque]
pub open spec fn landlord_fields() -> Seq<FieldView> {
    seq![
        idle_field(
            "enabled"@,
            "启用斗地主"@,
            KindView::Bool,
            "三名好友参与的单局斗地主娱乐模块"@,
        ),
        idle_field(
            "lobby_timeout_seconds"@,
            "组局超时"@,
            int_kind(1, 86_400),
            "等待三人组局的最长时间，单位秒"@,
        ),
        idle_field(
            "turn_timeout_seconds"@,
            "出牌时间"@,
            int_kind(1, 86_400),
            "每名玩家的出牌时间，单位秒"@,
        ),
        idle_field(
            "trustee_after_timeouts"@,
            "托管触发次数"@,
            int_kind(1, MAX_STABLE_COUNT as int),
            "连续超时多少次后进入自动托管；启用斗地主时须大于 0"@,
        ),
        idle_field(
            "hand_cooldown_seconds"@,
            "手牌查询冷却"@,
            int_kind(0, 86_400),
            "好友私聊 #手牌 的单人查询冷却，单位秒"@,
        ),
    ]
}

/// The fields of the section `landlord`.
pub fn landlord_section() -> (r: Vec<ConfigFieldSchema>)
    ensures
        field_views(r@) == landlord_fields(),
{
    let fields = vec![
        ConfigFieldSchema::db_idle_reload(
            "enabled",
            "启用斗地主",
            FieldKind::Bool,
            "三名好友参与的单局斗地主娱乐模块",
        ),
        ConfigFieldSchema::db_idle_reload(
            "lobby_timeout_seconds",
            "组局超时",
            int_of(1, 86_400),
            "等待三人组局的最长时间，单位秒",
        ),
        ConfigFieldSchema::db_idle_reload(
            "turn_timeout_seconds",
            "出牌时间",
            int_of(1, 86_400),
            "每名玩家的出牌时间，单位秒",
        ),
        ConfigFieldSchema::db_idle_reload(
            "trustee_after_timeouts",
            "托管触发次数",
            int_of(1, MAX_STABLE_COUNT),
            "连续超时多少次后进入自动托管；启用斗地主时须大于 0",
        ),
        ConfigFieldSchema::db_idle_reload(
            "hand_cooldown_seconds",
            "手牌查询冷却",
            int_of(0, 86_400),
            "好友私聊 #手牌 的单人查询冷却，单位秒",
        ),
    ];
    proof {
        reveal(landlord_fields);
        assert(field_views(fields@) =~= landlord_fields());
    }
    fields
}

/// Which field of the section `landlord` has a path.
spec fn landlord_place(path: Seq<char>) -> int {
    if path.len() == 7 {
        0
    } else if path.len() == 21 && path[0] == 'l' {
        1
    } else if path.len() == 20 {
        2
    } else if path.len() == 22 {
        3
    } else {
        4
    }
}

/// The fields of the section `landlord` are declared soundly, each path once.
pub proof fn lemma_landlord_fields()
    ensures
        declared_soundly(landlord_fields()),
        distinct_paths(landlord_fields()),
        no_secrets(landlord_fields()),
        landlord_fields().len() == 5,
{
    reveal(landlord_fields);
    let fields = landlord_fields();
    assert(landlord_place(fields[0].path) == 0) by {
        reveal_strlit("enabled");
    }
    assert(landlord_place(fields[1].path) == 1) by {
        reveal_strlit("lobby_timeout_seconds");
    }
    assert(landlord_place(fields[2].path) == 2) by {
        reveal_strlit("turn_timeout_seconds");
    }
    assert(landlord_place(fields[3].path) == 3) by {
        reveal_strlit("trustee_after_timeouts");
    }
    assert(landlord_place(fields[4].path) == 4) by {
        reveal_strlit("hand_cooldown_seconds");
    }
    assert forall|i: int, j: int| 0 <= i < j < fields.len() implies (#[trigger] fields[i]).path
        != (#[trigger] fields[j]).path by {
        assert(landlord_place(fields[i].path) == i);
        assert(landlord_place(fields[j].path) == j);
    }
}

/// The fields of the section `undercover`.
#[verifier::opaque]
pub open spec fn undercover_fields() -> Seq<FieldView> {
    seq![
        idle_field(
            "enabled"@,
            "启用卧底"@,
            KindView::Bool,
            "谁是卧底娱乐模块；启用前复制 undercover.example.yaml 为 undercover.yaml 并审核词对"@,
        ),
        idle_field(
            "word_bank_path"@,
            "词库路径"@,
            KindView::Path,
            "词对词库路径（相对 EXE 根目录）"@,
        ),
        idle_field(
            "used_state_path"@,
            "已用词记录路径"@,
            KindView::Path,
            "已使用词对持久化路径（相对 EXE 根目录）"@,
        ),
        idle_field(
            "min_players"@,
            "最少玩家"@,
            int_kind(4, 11),
            "开局最少玩家数；启用时需 4..=max_players"@,
        ),
        idle_field(
            "double_min_players"@,
            "双卧底最少玩家"@,
            int_kind(6, 11),
            "双卧底模式所需最少玩家数；启用时需 6..=max_players"@,
        ),
        idle_field(
            "max_players"@,
            "最多玩家"@,
            int_kind(4, 11),
            "开局最多玩家数；4..=11 且 >= min_players"@,
        ),
        idle_field(
            "lobby_timeout_seconds"@,
            "大厅等待超时"@,
            int_kind(1, 86_400),
            "等待玩家进入大厅的最长时间，单位秒"@,
        ),
        idle_field(
            "phase_timeout_seconds"@,
            "阶段超时"@,
            int_kind(1, 86_400),
            "每个游戏阶段的最长时间，单位秒"@,
        ),
        idle_field(
            "progress_interval_seconds"@,
            "进度公布间隔"@,
            int_kind(1, 86_400),
            "投票阶段公布未投票位置的间隔，单位秒"@,
        ),
        idle_field(
            "description_max_width"@,
            "描述最大宽度"@,
            int_kind(1, 1000),
            "单条公屏 #内容 的最大显示宽度"@,
        ),
    ]
}

/// The fields of the section `undercover`.
pub fn undercover_section() -> (r: Vec<ConfigFieldSchema>)
    ensures
        field_views(r@) == undercover_fields(),
{
    let fields = vec![
        ConfigFieldSchema::db_idle_reload(
            "enabled",
            "启用卧底",
            FieldKind::Bool,
            "谁是卧底娱乐模块；启用前复制 undercover.example.yaml 为 undercover.yaml 并审核词对",
        ),
        ConfigFieldSchema::db_idle_reload(
            "word_bank_path",
            "词库路径",
            FieldKind::Path,
            "词对词库路径（相对 EXE 根目录）",
        ),
        ConfigFieldSchema::db_idle_reload(
            "used_state_path",
            "已用词记录路径",
            FieldKind::Path,
            "已使用词对持久化路径（相对 EXE 根目录）",
        ),
        ConfigFieldSchema::db_idle_reload(
            "min_players",
            "最少玩家",
            int_of(4, 11),
            "开局最少玩家数；启用时需 4..=max_players",
        ),
        ConfigFieldSchema::db_idle_reload(
            "double_min_players",
            "双卧底最少玩家",
            int_of(6, 11),
            "双卧底模式所需最少玩家数；启用时需 6..=max_players",
        ),
        ConfigFieldSchema::db_idle_reload(
            "max_players",
            "最多玩家",
            int_of(4, 11),
            "开局最多玩家数；4..=11 且 >= min_players",
        ),
        ConfigFieldSchema::db_idle_reload(
            "lobby_timeout_seconds",
            "大厅等待超时",
            int_of(1, 86_400),
            "等待玩家进入大厅的最长时间，单位秒",
        ),
        ConfigFieldSchema::db_idle_reload(
            "phase_timeout_seconds",
            "阶段超时",
            int_of(1, 86_400),
            "每个游戏阶段的最长时间，单位秒",
        ),
        ConfigFieldSchema::db_idle_reload(
            "progress_interval_seconds",
            "进度公布间隔",
            int_of(1, 86_400),
            "投票阶段公布未投票位置的间隔，单位秒",
        ),
        ConfigFieldSchema::db_idle_reload(
            "description_max_width",
            "描述最大宽度",
            int_of(1, 1000),
            "单条公屏 #内容 的最大显示宽度",
        ),
    ];
    proof {
        reveal(undercover_fields);
        assert(field_views(fields@) =~= undercover_fields());
    }
    fields
}

/// Which field of the section `undercover` has a path.
spec fn undercover_place(path: Seq<char>) -> int {
    if path.len() == 7 {
        0
    } else if path.len() == 14 {
        1
    } else if path.len() == 15 {
        2
    } else if path.len() == 11 && path[1] == 'i' {
        3
    } else if path.len() == 18 {
        4
    } else if path.len() == 11 {
        5
    } else if path.len() == 21 && path[0] == 'l' {
        6
    } else if path.len() == 21 && path[0] == 'p' {
        7
    } else if path.len() == 25 {
        8
    } else {
        9
    }
}

/// The fields of the section `undercover` are declared soundly, each path once.
pub proof fn lemma_undercover_fields()
    ensures
        declared_soundly(undercover_fields()),
        distinct_paths(undercover_fields()),
        no_secrets(undercover_fields()),
        undercover_fields().len() == 10,
{
    reveal(undercover_fields);
    let fields = undercover_fields();
    assert(undercover_place(fields[0].path) == 0) by {
        reveal_strlit("enabled");
    }
    assert(undercover_place(fields[1].path) == 1) by {
        reveal_strlit("word_bank_path");
    }
    assert(undercover_place(fields[2].path) == 2) by {
        reveal_strlit("used_state_path");
    }
    assert(undercover_place(fields[3].path) == 3) by {
        reveal_strlit("min_players");
    }
    assert(undercover_place(fields[4].path) == 4) by {
        reveal_strlit("double_min_players");
    }
    assert(undercover_place(fields[5].path) == 5) by {
        reveal_strlit("max_players");
    }
    assert(undercover_place(fields[6].path) == 6) by {
        reveal_strlit("lobby_timeout_seconds");
    }
    assert(undercover_place(fields[7].path) == 7) by {
        reveal_strlit("phase_timeout_seconds");
    }
    assert(undercover_place(fields[8].path) == 8) by {
        reveal_strlit("progress_interval_seconds");
    }
    assert(undercover_place(fields[9].path) == 9) by {
        reveal_strlit("description_max_width");
    }
    assert forall|i: int, j: int| 0 <= i < j < fields.len() implies (#[trigger] fields[i]).path
        != (#[trigger] fields[j]).path by {
        assert(undercover_place(fields[i].path) == i);
        assert(undercover_place(fields[j].path) == j);
    }
}

/// The fields of the section `turtle_soup`.
#[verifier::opaque]
pub open spec fn turtle_soup_fields() -> Seq<FieldView> {
    seq![
        idle_field(
            "enabled"@,
            "启用海龟汤"@,
            KindView::Bool,
            "海龟汤娱乐模块；启用前必须准备正式题库并配置独立 AI Provider"@,
        ),
        idle_field(
            "question_bank_path"@,
            "题库路径"@,
            KindView::Path,
            "正式题库路径，格式参考 turtle_soup.example.yaml（相对 EXE 根目录）"@,
        ),
        idle_field(
            "used_state_path"@,
            "已用题目记录路径"@,
            KindView::Path,
            "永久已使用题目记录；程序不提供重置接口，只能手动修改此文件"@,
        ),
        idle_field(
            "idle_timeout_seconds"@,
            "空闲超时"@,
            int_kind(1, 86_400),
            "进行中多久没有新问题就自动结束，单位秒"@,
        ),
        idle_field(
            "max_session_seconds"@,
            "单局最长时长"@,
            int_kind(1, 86_400),
            "单局最长时间，单位秒"@,
        ),
        idle_field(
            "max_concurrency"@,
            "并发裁决上限"@,
            int_kind(1, 1024),
            "AI 同时裁决的最大请求数"@,
        ),
        idle_field(
            "max_pending"@,
            "待裁决上限"@,
            int_kind(1, 1024),
            "除正在裁决外，最多等待多少条问题"@,
        ),
        idle_field(
            "batch_max_parts"@,
            "批量答案分段上限"@,
            int_kind(1, 1024),
            "单个昵称的一份批量长答案最多暂存多少段；每段仍受游戏聊天长度限制"@,
        ),
        idle_field(
            "nickname_stable_count"@,
            "昵称稳定确认次数"@,
            int_kind(0, MAX_STABLE_COUNT as int),
            "昵称 OCR 连续确认次数；大于 1 时覆盖全局值，0 或 1 表示继承"@,
        ),
        idle_field(
            "content_stable_count"@,
            "正文稳定确认次数"@,
            int_kind(0, MAX_STABLE_COUNT as int),
            "正文 OCR 连续确认次数；大于 1 时覆盖全局值，0 或 1 表示继承"@,
        ),
        idle_field(
            "request_timeout_seconds"@,
            "AI 请求超时"@,
            int_kind(1, 86_400),
            "单次 AI 请求超时，单位秒"@,
        ),
        idle_field(
            "retry_count"@,
            "重试次数"@,
            int_kind(0, MAX_STABLE_COUNT as int),
            "单次裁决请求失败后的重试次数；实际最多请求 retry_count + 1 次"@,
        ),
        idle_field(
            "retry_delay_ms"@,
            "重试间隔"@,
            int_kind(0, MAX_TIMEOUT_MS as int),
            "AI 请求重试间隔，单位毫秒"@,
        ),
        idle_field(
            "custom_prompt"@,
            "自定义规则"@,
            KindView::String,
            "附加在固定裁决提示词后的房间规则；不要要求模型输出自由解释或汤底"@,
        ),
        idle_field(
            "ai.endpoint"@,
            "AI 接口地址"@,
            KindView::String,
            "OpenAI 官方完整 Chat Completions 地址"@,
        ),
        idle_field(
            "ai.api_key"@,
            "AI API Key"@,
            KindView::Secret,
            "填写 OpenAI API Key；不要提交到 Git"@,
        ),
        idle_field(
            "ai.model"@,
            "AI 模型"@,
            KindView::String,
            "高能力模型；请求只发送 OpenAI 标准 Chat Completions 字段"@,
        ),
        idle_field(
            "ai.http_proxy"@,
            "AI 代理"@,
            KindView::String,
            "可选的独立 HTTP(S) 代理；留空时沿用环境代理设置"@,
        ),
        idle_field(
            "ai.max_tokens"@,
            "最大 Token"@,
            int_kind(1, 1_000_000),
            "单次裁决允许生成的最大 Token；程序按 OpenAI Chat Completions 的 max_tokens 字段发送"@,
        ),
        idle_field(
            "ai.extra_body"@,
            "第三方兼容字段"@,
            KindView::Object,
            "第三方兼容字段；默认空。Web 可载入主流网关模板或手动填写 JSON。只能补充字段，和程序固定字段同名时程序值优先"@,
        ),
    ]
}

/// The fields of the section `turtle_soup`.
pub fn turtle_soup_section() -> (r: Vec<ConfigFieldSchema>)
    ensures
        field_views(r@) == turtle_soup_fields(),
{
    let fields = vec![
        ConfigFieldSchema::db_idle_reload(
            "enabled",
            "启用海龟汤",
            FieldKind::Bool,
            "海龟汤娱乐模块；启用前必须准备正式题库并配置独立 AI Provider",
        ),
        ConfigFieldSchema::db_idle_reload(
            "question_bank_path",
            "题库路径",
            FieldKind::Path,
            "正式题库路径，格式参考 turtle_soup.example.yaml（相对 EXE 根目录）",
        ),
        ConfigFieldSchema::db_idle_reload(
            "used_state_path",
            "已用题目记录路径",
            FieldKind::Path,
            "永久已使用题目记录；程序不提供重置接口，只能手动修改此文件",
        ),
        ConfigFieldSchema::db_idle_reload(
            "idle_timeout_seconds",
            "空闲超时",
            int_of(1, 86_400),
            "进行中多久没有新问题就自动结束，单位秒",
        ),
        ConfigFieldSchema::db_idle_reload(
            "max_session_seconds",
            "单局最长时长",
            int_of(1, 86_400),
            "单局最长时间，单位秒",
        ),
        ConfigFieldSchema::db_idle_reload(
            "max_concurrency",
            "并发裁决上限",
            int_of(1, 1024),
            "AI 同时裁决的最大请求数",
        ),
        ConfigFieldSchema::db_idle_reload(
            "max_pending",
            "待裁决上限",
            int_of(1, 1024),
            "除正在裁决外，最多等待多少条问题",
        ),
        ConfigFieldSchema::db_idle_reload(
            "batch_max_parts",
            "批量答案分段上限",
            int_of(1, 1024),
            "单个昵称的一份批量长答案最多暂存多少段；每段仍受游戏聊天长度限制",
        ),
        ConfigFieldSchema::db_idle_reload(
            "nickname_stable_count",
            "昵称稳定确认次数",
            int_of(0, MAX_STABLE_COUNT),
            "昵称 OCR 连续确认次数；大于 1 时覆盖全局值，0 或 1 表示继承",
        ),
        ConfigFieldSchema::db_idle_reload(
            "content_stable_count",
            "正文稳定确认次数",
            int_of(0, MAX_STABLE_COUNT),
            "正文 OCR 连续确认次数；大于 1 时覆盖全局值，0 或 1 表示继承",
        ),
        ConfigFieldSchema::db_idle_reload(
            "request_timeout_seconds",
            "AI 请求超时",
            int_of(1, 86_400),
            "单次 AI 请求超时，单位秒",
        ),
        ConfigFieldSchema::db_idle_reload(
            "retry_count",
            "重试次数",
            int_of(0, MAX_STABLE_COUNT),
            "单次裁决请求失败后的重试次数；实际最多请求 retry_count + 1 次",
        ),
        ConfigFieldSchema::db_idle_reload(
            "retry_delay_ms",
            "重试间隔",
            int_of(0, MAX_TIMEOUT_MS),
            "AI 请求重试间隔，单位毫秒",
        ),
        ConfigFieldSchema::db_idle_reload(
            "custom_prompt",
            "自定义规则",
            FieldKind::String,
            "附加在固定裁决提示词后的房间规则；不要要求模型输出自由解释或汤底",
        ),
        ConfigFieldSchema::db_idle_reload(
            "ai.endpoint",
            "AI 接口地址",
            FieldKind::String,
            "OpenAI 官方完整 Chat Completions 地址",
        ),
        ConfigFieldSchema::db_idle_reload(
            "ai.api_key",
            "AI API Key",
            FieldKind::Secret,
            "填写 OpenAI API Key；不要提交到 Git",
        ),
        ConfigFieldSchema::db_idle_reload(
            "ai.model",
            "AI 模型",
            FieldKind::String,
            "高能力模型；请求只发送 OpenAI 标准 Chat Completions 字段",
        ),
        ConfigFieldSchema::db_idle_reload(
            "ai.http_proxy",
            "AI 代理",
            FieldKind::String,
            "可选的独立 HTTP(S) 代理；留空时沿用环境代理设置",
        ),
        ConfigFieldSchema::db_idle_reload(
            "ai.max_tokens",
            "最大 Token",
            int_of(1, 1_000_000),
            "单次裁决允许生成的最大 Token；程序按 OpenAI Chat Completions 的 max_tokens 字段发送",
        ),
        ConfigFieldSchema::db_idle_reload(
            "ai.extra_body",
            "第三方兼容字段",
            FieldKind::Object,
            "第三方兼容字段；默认空。Web 可载入主流网关模板或手动填写 JSON。只能补充字段，和程序固定字段同名时程序值优先",
        ),
    ];
    proof {
        reveal(turtle_soup_fields);
        assert(field_views(fields@) =~= turtle_soup_fields());
    }
    fields
}

/// Which field of the section `turtle_soup` has a path.
spec fn turtle_soup_place(path: Seq<char>) -> int {
    if path.len() == 7 {
        0
    } else if path.len() == 18 {
        1
    } else if path.len() == 15 && path[0] == 'u' {
        2
    } else if path.len() == 20 && path[0] == 'i' {
        3
    } else if path.len() == 19 {
        4
    } else if path.len() == 15 && path[0] == 'm' {
        5
    } else if path.len() == 11 && path[0] == 'm' {
        6
    } else if path.len() == 15 {
        7
    } else if path.len() == 21 {
        8
    } else if path.len() == 20 {
        9
    } else if path.len() == 23 {
        10
    } else if path.len() == 11 && path[0] == 'r' {
        11
    } else if path.len() == 14 {
        12
    } else if path.len() == 13 && path[0] == 'c' {
        13
    } else if path.len() == 11 {
        14
    } else if path.len() == 10 {
        15
    } else if path.len() == 8 {
        16
    } else if path.len() == 13 && path[3] == 'h' {
        17
    } else if path.len() == 13 && path[3] == 'm' {
        18
    } else {
        19
    }
}

/// The fields of the section `turtle_soup` are declared soundly, each path once.
pub proof fn lemma_turtle_soup_fields()
    ensures
        declared_soundly(turtle_soup_fields()),
        distinct_paths(turtle_soup_fields()),
        one_secret(turtle_soup_fields(), 15),
        turtle_soup_fields()[15].path == "ai.api_key"@,
        turtle_soup_fields().len() == 20,
{
    reveal(turtle_soup_fields);
    let fields = turtle_soup_fields();
    assert(turtle_soup_place(fields[0].path) == 0) by {
        reveal_strlit("enabled");
    }
    assert(turtle_soup_place(fields[1].path) == 1) by {
        reveal_strlit("question_bank_path");
    }
    assert(turtle_soup_place(fields[2].path) == 2) by {
        reveal_strlit("used_state_path");
    }
    assert(turtle_soup_place(fields[3].path) == 3) by {
        reveal_strlit("idle_timeout_seconds");
    }
    assert(turtle_soup_place(fields[4].path) == 4) by {
        reveal_strlit("max_session_seconds");
    }
    assert(turtle_soup_place(fields[5].path) == 5) by {
        reveal_strlit("max_concurrency");
    }
    assert(turtle_soup_place(fields[6].path) == 6) by {
        reveal_strlit("max_pending");
    }
    assert(turtle_soup_place(fields[7].path) == 7) by {
        reveal_strlit("batch_max_parts");
    }
    assert(turtle_soup_place(fields[8].path) == 8) by {
        reveal_strlit("nickname_stable_count");
    }
    assert(turtle_soup_place(fields[9].path) == 9) by {
        reveal_strlit("content_stable_count");
    }
    assert(turtle_soup_place(fields[10].path) == 10) by {
        reveal_strlit("request_timeout_seconds");
    }
    assert(turtle_soup_place(fields[11].path) == 11) by {
        reveal_strlit("retry_count");
    }
    assert(turtle_soup_place(fields[12].path) == 12) by {
        reveal_strlit("retry_delay_ms");
    }
    assert(turtle_soup_place(fields[13].path) == 13) by {
        reveal_strlit("custom_prompt");
    }
    assert(turtle_soup_place(fields[14].path) == 14) by {
        reveal_strlit("ai.endpoint");
    }
    assert(turtle_soup_place(fields[15].path) == 15) by {
        reveal_strlit("ai.api_key");
    }
    assert(turtle_soup_place(fields[16].path) == 16) by {
        reveal_strlit("ai.model");
    }
    assert(turtle_soup_place(fields[17].path) == 17) by {
        reveal_strlit("ai.http_proxy");
    }
    assert(turtle_soup_place(fields[18].path) == 18) by {
        reveal_strlit("ai.max_tokens");
    }
    assert(turtle_soup_place(fields[19].path) == 19) by {
        reveal_strlit("ai.extra_body");
    }
    assert forall|i: int, j: int| 0 <= i < j < fields.len() implies (#[trigger] fields[i]).path
        != (#[trigger] fields[j]).path by {
        assert(turtle_soup_place(fields[i].path) == i);
        assert(turtle_soup_place(fields[j].path) == j);
    }
}
} // verus!
