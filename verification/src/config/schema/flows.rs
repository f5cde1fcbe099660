//! The fields of the sections on flows through the game.
use vstd::prelude::*;
use crate::config::schema::declared_soundly;
use crate::config::schema::distinct_paths;
use crate::config::schema::field_views;
use crate::config::schema::float_kind;
use crate::config::schema::float_of;
use crate::config::schema::idle_field;
use crate::config::schema::int_kind;
use crate::config::schema::int_of;
use crate::config::schema::live_field;
use crate::config::schema::no_secrets;
use crate::config::schema::ConfigFieldSchema;
use crate::config::schema::FieldKind;
use crate::config::schema::FieldView;
use crate::config::schema::KindView;
use crate::config::schema::MAX_STABLE_COUNT;
use crate::config::schema::MAX_TIMEOUT_MS;

verus! {

/// The fields of the section `moderation`.
#[verifier::opaque]
pub open spec fn moderation_fields() -> Seq<FieldView> {
    seq![
        idle_field(
            "stable_vote_samples"@,
            "连续稳定识别次数"@,
            int_kind(1, MAX_STABLE_COUNT as int),
            "同一好友同一判决需要连续稳定识别次数"@,
        ),
        idle_field(
            "required_vote_margin"@,
            "投票差额"@,
            int_kind(1, MAX_STABLE_COUNT as int),
            "同意人数 - 不同意人数 达到该值才执行"@,
        ),
        idle_field(
            "friend_panel_region"@,
            "好友界面区域"@,
            KindView::Rect,
            "好友界面模板搜索区域"@,
        ),
        idle_field(
            "search_panel_region"@,
            "搜索按钮区域"@,
            KindView::Rect,
            "搜索按钮模板搜索区域；命中后会点击按钮左侧 500 像素处粘贴 UID，再点击按钮"@,
        ),
        idle_field(
            "search_input_point"@,
            "搜索输入框点击点"@,
            KindView::Point,
            "UID 搜索输入框点击点"@,
        ),
        idle_field(
            "search_button_point"@,
            "搜索按钮点击点"@,
            KindView::Point,
            "UID 搜索按钮点击点"@,
        ),
        idle_field(
            "more_settings_region"@,
            "更多设置区域"@,
            KindView::Rect,
            "更多设置按钮模板搜索区域"@,
        ),
        idle_field(
            "block_chat_region"@,
            "屏蔽聊天区域"@,
            KindView::Rect,
            "屏蔽聊天按钮模板搜索区域"@,
        ),
        idle_field(
            "blacklist_region"@,
            "拉黑按钮区域"@,
            KindView::Rect,
            "拉黑按钮模板搜索区域"@,
        ),
        idle_field(
            "confirm_region"@,
            "确认按钮区域"@,
            KindView::Rect,
            "拉黑/屏蔽弹窗确认按钮模板搜索区域"@,
        ),
    ]
}

/// The fields of the section `moderation`.
pub fn moderation_section() -> (r: Vec<ConfigFieldSchema>)
    ensures
        field_views(r@) == moderation_fields(),
{
    let fields = vec![
        ConfigFieldSchema::db_idle_reload(
            "stable_vote_samples",
            "连续稳定识别次数",
            int_of(1, MAX_STABLE_COUNT),
            "同一好友同一判决需要连续稳定识别次数",
        ),
        ConfigFieldSchema::db_idle_reload(
            "required_vote_margin",
            "投票差额",
            int_of(1, MAX_STABLE_COUNT),
            "同意人数 - 不同意人数 达到该值才执行",
        ),
        ConfigFieldSchema::db_idle_reload(
            "friend_panel_region",
            "好友界面区域",
            FieldKind::Rect,
            "好友界面模板搜索区域",
        ),
        ConfigFieldSchema::db_idle_reload(
            "search_panel_region",
            "搜索按钮区域",
            FieldKind::Rect,
            "搜索按钮模板搜索区域；命中后会点击按钮左侧 500 像素处粘贴 UID，再点击按钮",
        ),
        ConfigFieldSchema::db_idle_reload(
            "search_input_point",
            "搜索输入框点击点",
            FieldKind::Point,
            "UID 搜索输入框点击点",
        ),
        ConfigFieldSchema::db_idle_reload(
            "search_button_point",
            "搜索按钮点击点",
            FieldKind::Point,
            "UID 搜索按钮点击点",
        ),
        ConfigFieldSchema::db_idle_reload(
            "more_settings_region",
            "更多设置区域",
            FieldKind::Rect,
            "更多设置按钮模板搜索区域",
        ),
        ConfigFieldSchema::db_idle_reload(
            "block_chat_region",
            "屏蔽聊天区域",
            FieldKind::Rect,
            "屏蔽聊天按钮模板搜索区域",
        ),
        ConfigFieldSchema::db_idle_reload(
            "blacklist_region",
            "拉黑按钮区域",
            FieldKind::Rect,
            "拉黑按钮模板搜索区域",
        ),
        ConfigFieldSchema::db_idle_reload(
            "confirm_region",
            "确认按钮区域",
            FieldKind::Rect,
            "拉黑/屏蔽弹窗确认按钮模板搜索区域",
        ),
    ];
    proof {
        reveal(moderation_fields);
        assert(field_views(fields@) =~= moderation_fields());
    }
    fields
}

/// Which field of the section `moderation` has a path.
spec fn moderation_place(path: Seq<char>) -> int {
    if path.len() == 19 && path[1] == 't' {
        0
    } else if path.len() == 20 && path[0] == 'r' {
        1
    } else if path.len() == 19 && path[0] == 'f' {
        2
    } else if path.len() == 19 && path[7] == 'p' {
        3
    } else if path.len() == 18 {
        4
    } else if path.len() == 19 {
        5
    } else if path.len() == 20 {
        6
    } else if path.len() == 17 {
        7
    } else if path.len() == 16 {
        8
    } else {
        9
    }
}

/// The fields of the section `moderation` are declared soundly, each path once.
pub proof fn lemma_moderation_fields()
    ensures
        declared_soundly(moderation_fields()),
        distinct_paths(moderation_fields()),
        no_secrets(moderation_fields()),
        moderation_fields().len() == 10,
{
    reveal(moderation_fields);
    let fields = moderation_fields();
    assert(moderation_place(fields[0].path) == 0) by {
        reveal_strlit("stable_vote_samples");
    }
    assert(moderation_place(fields[1].path) == 1) by {
        reveal_strlit("required_vote_margin");
    }
    assert(moderation_place(fields[2].path) == 2) by {
        reveal_strlit("friend_panel_region");
    }
    assert(moderation_place(fields[3].path) == 3) by {
        reveal_strlit("search_panel_region");
    }
    assert(moderation_place(fields[4].path) == 4) by {
        reveal_strlit("search_input_point");
    }
    assert(moderation_place(fields[5].path) == 5) by {
        reveal_strlit("search_button_point");
    }
    assert(moderation_place(fields[6].path) == 6) by {
        reveal_strlit("more_settings_region");
    }
    assert(moderation_place(fields[7].path) == 7) by {
        reveal_strlit("block_chat_region");
    }
    assert(moderation_place(fields[8].path) == 8) by {
        reveal_strlit("blacklist_region");
    }
    assert(moderation_place(fields[9].path) == 9) by {
        reveal_strlit("confirm_region");
    }
    assert forall|i: int, j: int| 0 <= i < j < fields.len() implies (#[trigger] fields[i]).path
        != (#[trigger] fields[j]).path by {
        assert(moderation_place(fields[i].path) == i);
        assert(moderation_place(fields[j].path) == j);
    }
}

/// The fields of the section `startup`.
#[verifier::opaque]
pub open spec fn startup_fields() -> Seq<FieldView> {
    seq![
        idle_field(
            "enabled"@,
            "启用启动流程"@,
            KindView::Bool,
            "程序启动后是否按配置自动排队执行“启动游戏”和“进入千星”"@,
        ),
        idle_field(
            "launch_game"@,
            "启动游戏"@,
            KindView::Bool,
            "找不到游戏窗口时是否启动游戏"@,
        ),
        idle_field(
            "enter_game"@,
            "进入游戏"@,
            KindView::Bool,
            "是否处理“点击进入”等开门按钮"@,
        ),
        idle_field(
            "enter_wonderland"@,
            "进入千星"@,
            KindView::Bool,
            "是否按 M 打开地图，进入千星奇域大厅后停止"@,
        ),
        idle_field(
            "exe_path"@,
            "启动 EXE 路径"@,
            KindView::Path,
            "启动 EXE 路径；可填完整 exe 文件路径，也可填 exe 所在目录；留空时自动从米哈游启动器注册表查找"@,
        ),
        idle_field(
            "game_args"@,
            "启动参数"@,
            KindView::String,
            "启动游戏时附加的命令行参数"@,
        ),
        idle_field(
            "launch_wait_ms"@,
            "窗口出现等待"@,
            int_kind(1, MAX_TIMEOUT_MS as int),
            "启动游戏后每次等待窗口出现的时间，单位毫秒"@,
        ),
        idle_field(
            "launch_retries"@,
            "窗口检查次数"@,
            int_kind(1, MAX_STABLE_COUNT as int),
            "启动游戏后最多检查窗口次数"@,
        ),
        idle_field(
            "enter_game_timeout_ms"@,
            "点击进入超时"@,
            int_kind(1, MAX_TIMEOUT_MS as int),
            "OCR 等待并点击“点击进入”的最长时间，单位毫秒"@,
        ),
        idle_field(
            "enter_wonderland_timeout_ms"@,
            "千星确认超时"@,
            int_kind(1, MAX_TIMEOUT_MS as int),
            "等待千星奇域界面/大厅确认的最长时间，单位毫秒"@,
        ),
        idle_field(
            "wonderland_map_star_retries"@,
            "星型入口匹配次数"@,
            int_kind(1, MAX_STABLE_COUNT as int),
            "地图星型入口阶段最多匹配次数"@,
        ),
        idle_field(
            "wonderland_map_star_retry_ms"@,
            "星型入口轮询间隔"@,
            int_kind(1, MAX_TIMEOUT_MS as int),
            "地图星型入口匹配轮询间隔，单位毫秒"@,
        ),
        idle_field(
            "wonderland_hall_retries"@,
            "千星大厅重试次数"@,
            int_kind(1, MAX_STABLE_COUNT as int),
            "千星大厅 OCR 阶段最多重试次数"@,
        ),
        idle_field(
            "wonderland_hall_retry_ms"@,
            "千星大厅轮询间隔"@,
            int_kind(1, MAX_TIMEOUT_MS as int),
            "千星大厅 OCR 轮询间隔，单位毫秒"@,
        ),
        idle_field(
            "wonderland_transition_timeout_ms"@,
            "阶段过渡超时"@,
            int_kind(1, MAX_TIMEOUT_MS as int),
            "千星入口和确认弹窗各阶段过渡等待的最长时间，单位毫秒"@,
        ),
        idle_field(
            "wonderland_confirm_stable_timeout_ms"@,
            "确认稳定超时"@,
            int_kind(1, MAX_TIMEOUT_MS as int),
            "确认按钮消失后等待该区域像素稳定的最长时间，单位毫秒"@,
        ),
        idle_field(
            "final_primary_timeout_ms"@,
            "主界面等待超时"@,
            int_kind(1, MAX_TIMEOUT_MS as int),
            "启动游戏结束时等待派蒙菜单模板的最长时间，单位毫秒"@,
        ),
        idle_field(
            "poll_ms"@,
            "轮询间隔"@,
            int_kind(1, MAX_TIMEOUT_MS as int),
            "启动流程 OCR/截图轮询间隔，单位毫秒"@,
        ),
        idle_field(
            "stable_mean_threshold"@,
            "像素稳定平均差阈值"@,
            float_kind(0, 2550),
            "像素稳定平均差阈值"@,
        ),
        idle_field(
            "stable_changed_ratio_threshold"@,
            "像素稳定变化比例"@,
            float_kind(0, 10),
            "像素稳定变化比例阈值"@,
        ),
        idle_field(
            "template_threshold"@,
            "模板匹配阈值"@,
            float_kind(0, 10),
            "启动界面模板匹配阈值（例如派蒙菜单）；越高越严格"@,
        ),
        idle_field(
            "wonderland_confirm_threshold"@,
            "千星确认阈值"@,
            float_kind(0, 10),
            "千星确认按钮模板匹配阈值；越高越严格"@,
        ),
        idle_field(
            "templates.wonderland_map_star"@,
            "星型入口模板"@,
            KindView::Path,
            "地图右下角星型入口模板（相对 EXE 根目录）"@,
        ),
        idle_field(
            "templates.wonderland_confirm"@,
            "千星确认模板"@,
            KindView::Path,
            "千星弹窗“确认”按钮模板（相对 EXE 根目录）"@,
        ),
        idle_field(
            "templates.paimon_menu"@,
            "派蒙菜单模板"@,
            KindView::Path,
            "派蒙菜单模板；启动游戏完成判断使用（相对 EXE 根目录）"@,
        ),
        idle_field(
            "enter_game_text_region"@,
            "点击进入 OCR 区域"@,
            KindView::Rect,
            "“点击进入”按钮 OCR 区域"@,
        ),
        idle_field(
            "wonderland_hall_ocr_region"@,
            "千星大厅 OCR 区域"@,
            KindView::Rect,
            "右侧千星大厅选项 OCR 区域"@,
        ),
        idle_field(
            "wonderland_confirm_region"@,
            "千星确认区域"@,
            KindView::Rect,
            "千星确认按钮模板区域"@,
        ),
        idle_field(
            "main_ui_region"@,
            "主界面区域"@,
            KindView::Rect,
            "派蒙菜单/主界面模板区域"@,
        ),
        idle_field(
            "wonderland_map_star_region"@,
            "星型入口区域"@,
            KindView::Rect,
            "地图右下角星型入口模板区域"@,
        ),
    ]
}

/// The fields of the section `startup`.
pub fn startup_section() -> (r: Vec<ConfigFieldSchema>)
    ensures
        field_views(r@) == startup_fields(),
{
    let fields = vec![
        ConfigFieldSchema::db_idle_reload(
            "enabled",
            "启用启动流程",
            FieldKind::Bool,
            "程序启动后是否按配置自动排队执行“启动游戏”和“进入千星”",
        ),
        ConfigFieldSchema::db_idle_reload(
            "launch_game",
            "启动游戏",
            FieldKind::Bool,
            "找不到游戏窗口时是否启动游戏",
        ),
        ConfigFieldSchema::db_idle_reload(
            "enter_game",
            "进入游戏",
            FieldKind::Bool,
            "是否处理“点击进入”等开门按钮",
        ),
        ConfigFieldSchema::db_idle_reload(
            "enter_wonderland",
            "进入千星",
            FieldKind::Bool,
            "是否按 M 打开地图，进入千星奇域大厅后停止",
        ),
        ConfigFieldSchema::db_idle_reload(
            "exe_path",
            "启动 EXE 路径",
            FieldKind::Path,
            "启动 EXE 路径；可填完整 exe 文件路径，也可填 exe 所在目录；留空时自动从米哈游启动器注册表查找",
        ),
        ConfigFieldSchema::db_idle_reload(
            "game_args",
            "启动参数",
            FieldKind::String,
            "启动游戏时附加的命令行参数",
        ),
        ConfigFieldSchema::db_idle_reload(
            "launch_wait_ms",
            "窗口出现等待",
            int_of(1, MAX_TIMEOUT_MS),
            "启动游戏后每次等待窗口出现的时间，单位毫秒",
        ),
        ConfigFieldSchema::db_idle_reload(
            "launch_retries",
            "窗口检查次数",
            int_of(1, MAX_STABLE_COUNT),
            "启动游戏后最多检查窗口次数",
        ),
        ConfigFieldSchema::db_idle_reload(
            "enter_game_timeout_ms",
            "点击进入超时",
            int_of(1, MAX_TIMEOUT_MS),
            "OCR 等待并点击“点击进入”的最长时间，单位毫秒",
        ),
        ConfigFieldSchema::db_idle_reload(
            "enter_wonderland_timeout_ms",
            "千星确认超时",
            int_of(1, MAX_TIMEOUT_MS),
            "等待千星奇域界面/大厅确认的最长时间，单位毫秒",
        ),
        ConfigFieldSchema::db_idle_reload(
            "wonderland_map_star_retries",
            "星型入口匹配次数",
            int_of(1, MAX_STABLE_COUNT),
            "地图星型入口阶段最多匹配次数",
        ),
        ConfigFieldSchema::db_idle_reload(
            "wonderland_map_star_retry_ms",
            "星型入口轮询间隔",
            int_of(1, MAX_TIMEOUT_MS),
            "地图星型入口匹配轮询间隔，单位毫秒",
        ),
        ConfigFieldSchema::db_idle_reload(
            "wonderland_hall_retries",
            "千星大厅重试次数",
            int_of(1, MAX_STABLE_COUNT),
            "千星大厅 OCR 阶段最多重试次数",
        ),
        ConfigFieldSchema::db_idle_reload(
            "wonderland_hall_retry_ms",
            "千星大厅轮询间隔",
            int_of(1, MAX_TIMEOUT_MS),
            "千星大厅 OCR 轮询间隔，单位毫秒",
        ),
        ConfigFieldSchema::db_idle_reload(
            "wonderland_transition_timeout_ms",
            "阶段过渡超时",
            int_of(1, MAX_TIMEOUT_MS),
            "千星入口和确认弹窗各阶段过渡等待的最长时间，单位毫秒",
        ),
        ConfigFieldSchema::db_idle_reload(
            "wonderland_confirm_stable_timeout_ms",
            "确认稳定超时",
            int_of(1, MAX_TIMEOUT_MS),
            "确认按钮消失后等待该区域像素稳定的最长时间，单位毫秒",
        ),
        ConfigFieldSchema::db_idle_reload(
            "final_primary_timeout_ms",
            "主界面等待超时",
            int_of(1, MAX_TIMEOUT_MS),
            "启动游戏结束时等待派蒙菜单模板的最长时间，单位毫秒",
        ),
        ConfigFieldSchema::db_idle_reload(
            "poll_ms",
            "轮询间隔",
            int_of(1, MAX_TIMEOUT_MS),
            "启动流程 OCR/截图轮询间隔，单位毫秒",
        ),
        ConfigFieldSchema::db_idle_reload(
            "stable_mean_threshold",
            "像素稳定平均差阈值",
            float_of(0, 2550),
            "像素稳定平均差阈值",
        ),
        ConfigFieldSchema::db_idle_reload(
            "stable_changed_ratio_threshold",
            "像素稳定变化比例",
            float_of(0, 10),
            "像素稳定变化比例阈值",
        ),
        ConfigFieldSchema::db_idle_reload(
            "template_threshold",
            "模板匹配阈值",
            float_of(0, 10),
            "启动界面模板匹配阈值（例如派蒙菜单）；越高越严格",
        ),
        ConfigFieldSchema::db_idle_reload(
            "wonderland_confirm_threshold",
            "千星确认阈值",
            float_of(0, 10),
            "千星确认按钮模板匹配阈值；越高越严格",
        ),
        ConfigFieldSchema::db_idle_reload(
            "templates.wonderland_map_star",
            "星型入口模板",
            FieldKind::Path,
            "地图右下角星型入口模板（相对 EXE 根目录）",
        ),
        ConfigFieldSchema::db_idle_reload(
            "templates.wonderland_confirm",
            "千星确认模板",
            FieldKind::Path,
            "千星弹窗“确认”按钮模板（相对 EXE 根目录）",
        ),
        ConfigFieldSchema::db_idle_reload(
            "templates.paimon_menu",
            "派蒙菜单模板",
            FieldKind::Path,
            "派蒙菜单模板；启动游戏完成判断使用（相对 EXE 根目录）",
        ),
        ConfigFieldSchema::db_idle_reload(
            "enter_game_text_region",
            "点击进入 OCR 区域",
            FieldKind::Rect,
            "“点击进入”按钮 OCR 区域",
        ),
        ConfigFieldSchema::db_idle_reload(
            "wonderland_hall_ocr_region",
            "千星大厅 OCR 区域",
            FieldKind::Rect,
            "右侧千星大厅选项 OCR 区域",
        ),
        ConfigFieldSchema::db_idle_reload(
            "wonderland_confirm_region",
            "千星确认区域",
            FieldKind::Rect,
            "千星确认按钮模板区域",
        ),
        ConfigFieldSchema::db_idle_reload(
            "main_ui_region",
            "主界面区域",
            FieldKind::Rect,
            "派蒙菜单/主界面模板区域",
        ),
        ConfigFieldSchema::db_idle_reload(
            "wonderland_map_star_region",
            "星型入口区域",
            FieldKind::Rect,
            "地图右下角星型入口模板区域",
        ),
    ];
    proof {
        reveal(startup_fields);
        assert(field_views(fields@) =~= startup_fields());
    }
    fields
}

/// Which field of the section `startup` has a path.
spec fn startup_place(path: Seq<char>) -> int {
    if path.len() == 7 && path[0] == 'e' {
        0
    } else if path.len() == 11 {
        1
    } else if path.len() == 10 {
        2
    } else if path.len() == 16 {
        3
    } else if path.len() == 8 {
        4
    } else if path.len() == 9 {
        5
    } else if path.len() == 14 && path[7] == 'w' {
        6
    } else if path.len() == 14 && path[0] == 'l' {
        7
    } else if path.len() == 21 && path[0] == 'e' {
        8
    } else if path.len() == 27 && path[0] == 'e' {
        9
    } else if path.len() == 27 {
        10
    } else if path.len() == 28 && path[11] == 'm' {
        11
    } else if path.len() == 23 {
        12
    } else if path.len() == 24 && path[0] == 'w' {
        13
    } else if path.len() == 32 {
        14
    } else if path.len() == 36 {
        15
    } else if path.len() == 24 {
        16
    } else if path.len() == 7 {
        17
    } else if path.len() == 21 && path[0] == 's' {
        18
    } else if path.len() == 30 {
        19
    } else if path.len() == 18 {
        20
    } else if path.len() == 28 && path[0] == 'w' {
        21
    } else if path.len() == 29 {
        22
    } else if path.len() == 28 {
        23
    } else if path.len() == 21 {
        24
    } else if path.len() == 22 {
        25
    } else if path.len() == 26 && path[11] == 'h' {
        26
    } else if path.len() == 25 {
        27
    } else if path.len() == 14 {
        28
    } else {
        29
    }
}

/// The fields of the section `startup` are declared soundly, each path once.
pub proof fn lemma_startup_fields()
    ensures
        declared_soundly(startup_fields()),
        distinct_paths(startup_fields()),
        no_secrets(startup_fields()),
        startup_fields().len() == 30,
{
    reveal(startup_fields);
    let fields = startup_fields();
    assert(startup_place(fields[0].path) == 0) by {
        reveal_strlit("enabled");
    }
    assert(startup_place(fields[1].path) == 1) by {
        reveal_strlit("launch_game");
    }
    assert(startup_place(fields[2].path) == 2) by {
        reveal_strlit("enter_game");
    }
    assert(startup_place(fields[3].path) == 3) by {
        reveal_strlit("enter_wonderland");
    }
    assert(startup_place(fields[4].path) == 4) by {
        reveal_strlit("exe_path");
    }
    assert(startup_place(fields[5].path) == 5) by {
        reveal_strlit("game_args");
    }
    assert(startup_place(fields[6].path) == 6) by {
        reveal_strlit("launch_wait_ms");
    }
    assert(startup_place(fields[7].path) == 7) by {
        reveal_strlit("launch_retries");
    }
    assert(startup_place(fields[8].path) == 8) by {
        reveal_strlit("enter_game_timeout_ms");
    }
    assert(startup_place(fields[9].path) == 9) by {
        reveal_strlit("enter_wonderland_timeout_ms");
    }
    assert(startup_place(fields[10].path) == 10) by {
        reveal_strlit("wonderland_map_star_retries");
    }
    assert(startup_place(fields[11].path) == 11) by {
        reveal_strlit("wonderland_map_star_retry_ms");
    }
    assert(startup_place(fields[12].path) == 12) by {
        reveal_strlit("wonderland_hall_retries");
    }
    assert(startup_place(fields[13].path) == 13) by {
        reveal_strlit("wonderland_hall_retry_ms");
    }
    assert(startup_place(fields[14].path) == 14) by {
        reveal_strlit("wonderland_transition_timeout_ms");
    }
    assert(startup_place(fields[15].path) == 15) by {
        reveal_strlit("wonderland_confirm_stable_timeout_ms");
    }
    assert(startup_place(fields[16].path) == 16) by {
        reveal_strlit("final_primary_timeout_ms");
    }
    assert(startup_place(fields[17].path) == 17) by {
        reveal_strlit("poll_ms");
    }
    assert(startup_place(fields[18].path) == 18) by {
        reveal_strlit("stable_mean_threshold");
    }
    assert(startup_place(fields[19].path) == 19) by {
        reveal_strlit("stable_changed_ratio_threshold");
    }
    assert(startup_place(fields[20].path) == 20) by {
        reveal_strlit("template_threshold");
    }
    assert(startup_place(fields[21].path) == 21) by {
        reveal_strlit("wonderland_confirm_threshold");
    }
    assert(startup_place(fields[22].path) == 22) by {
        reveal_strlit("templates.wonderland_map_star");
    }
    assert(startup_place(fields[23].path) == 23) by {
        reveal_strlit("templates.wonderland_confirm");
    }
    assert(startup_place(fields[24].path) == 24) by {
        reveal_strlit("templates.paimon_menu");
    }
    assert(startup_place(fields[25].path) == 25) by {
        reveal_strlit("enter_game_text_region");
    }
    assert(startup_place(fields[26].path) == 26) by {
        reveal_strlit("wonderland_hall_ocr_region");
    }
    assert(startup_place(fields[27].path) == 27) by {
        reveal_strlit("wonderland_confirm_region");
    }
    assert(startup_place(fields[28].path) == 28) by {
        reveal_strlit("main_ui_region");
    }
    assert(startup_place(fields[29].path) == 29) by {
        reveal_strlit("wonderland_map_star_region");
    }
    assert forall|i: int, j: int| 0 <= i < j < fields.len() implies (#[trigger] fields[i]).path
        != (#[trigger] fields[j]).path by {
        assert(startup_place(fields[i].path) == i);
        assert(startup_place(fields[j].path) == j);
    }
}

/// The fields of the section `invite`.
#[verifier::opaque]
pub open spec fn invite_fields() -> Seq<FieldView> {
    seq![
        idle_field(
            "friend_name_stable_count"@,
            "好友备注确认次数"@,
            int_kind(0, MAX_STABLE_COUNT as int),
            "好友备注连续完整匹配次数；大于 1 时覆盖全局值，0 或 1 表示继承"@,
        ),
        idle_field(
            "friend_list_region"@,
            "好友列表区域"@,
            KindView::Rect,
            "好友列表 OCR 区域，用于查找发起邀请的用户名"@,
        ),
        idle_field(
            "friend_chat_region"@,
            "好友聊天区域"@,
            KindView::Rect,
            "点击好友后用于确认备注的二级聊天内容区域，不使用顶部原昵称"@,
        ),
        idle_field(
            "view_star_region"@,
            "查看千星区域"@,
            KindView::Rect,
            "“查看千星”模板搜索区域"@,
        ),
        idle_field(
            "goto_hall_region"@,
            "前往大厅区域"@,
            KindView::Rect,
            "“前往其大厅”模板搜索区域"@,
        ),
        idle_field(
            "enter_hall_region"@,
            "进入大厅区域"@,
            KindView::Rect,
            "“进入大厅”模板搜索区域"@,
        ),
    ]
}

/// The fields of the section `invite`.
pub fn invite_section() -> (r: Vec<ConfigFieldSchema>)
    ensures
        field_views(r@) == invite_fields(),
{
    let fields = vec![
        ConfigFieldSchema::db_idle_reload(
            "friend_name_stable_count",
            "好友备注确认次数",
            int_of(0, MAX_STABLE_COUNT),
            "好友备注连续完整匹配次数；大于 1 时覆盖全局值，0 或 1 表示继承",
        ),
        ConfigFieldSchema::db_idle_reload(
            "friend_list_region",
            "好友列表区域",
            FieldKind::Rect,
            "好友列表 OCR 区域，用于查找发起邀请的用户名",
        ),
        ConfigFieldSchema::db_idle_reload(
            "friend_chat_region",
            "好友聊天区域",
            FieldKind::Rect,
            "点击好友后用于确认备注的二级聊天内容区域，不使用顶部原昵称",
        ),
        ConfigFieldSchema::db_idle_reload(
            "view_star_region",
            "查看千星区域",
            FieldKind::Rect,
            "“查看千星”模板搜索区域",
        ),
        ConfigFieldSchema::db_idle_reload(
            "goto_hall_region",
            "前往大厅区域",
            FieldKind::Rect,
            "“前往其大厅”模板搜索区域",
        ),
        ConfigFieldSchema::db_idle_reload(
            "enter_hall_region",
            "进入大厅区域",
            FieldKind::Rect,
            "“进入大厅”模板搜索区域",
        ),
    ];
    proof {
        reveal(invite_fields);
        assert(field_views(fields@) =~= invite_fields());
    }
    fields
}

/// Which field of the section `invite` has a path.
spec fn invite_place(path: Seq<char>) -> int {
    if path.len() == 24 {
        0
    } else if path.len() == 18 && path[7] == 'l' {
        1
    } else if path.len() == 18 {
        2
    } else if path.len() == 16 && path[0] == 'v' {
        3
    } else if path.len() == 16 {
        4
    } else {
        5
    }
}

/// The fields of the section `invite` are declared soundly, each path once.
pub proof fn lemma_invite_fields()
    ensures
        declared_soundly(invite_fields()),
        distinct_paths(invite_fields()),
        no_secrets(invite_fields()),
        invite_fields().len() == 6,
{
    reveal(invite_fields);
    let fields = invite_fields();
    assert(invite_place(fields[0].path) == 0) by {
        reveal_strlit("friend_name_stable_count");
    }
    assert(invite_place(fields[1].path) == 1) by {
        reveal_strlit("friend_list_region");
    }
    assert(invite_place(fields[2].path) == 2) by {
        reveal_strlit("friend_chat_region");
    }
    assert(invite_place(fields[3].path) == 3) by {
        reveal_strlit("view_star_region");
    }
    assert(invite_place(fields[4].path) == 4) by {
        reveal_strlit("goto_hall_region");
    }
    assert(invite_place(fields[5].path) == 5) by {
        reveal_strlit("enter_hall_region");
    }
    assert forall|i: int, j: int| 0 <= i < j < fields.len() implies (#[trigger] fields[i]).path
        != (#[trigger] fields[j]).path by {
        assert(invite_place(fields[i].path) == i);
        assert(invite_place(fields[j].path) == j);
    }
}

/// The fields of the section `custom_workflows`.
#[verifier::opaque]
pub open spec fn custom_workflows_fields() -> Seq<FieldView> {
    seq![
        live_field(
            "enabled"@,
            "启用自定义流程"@,
            KindView::Bool,
            "是否启用配置驱动的自定义流程命令；保存后立即生效"@,
        ),
        live_field(
            "default_threshold"@,
            "模板默认阈值"@,
            float_kind(0, 10),
            "模板默认匹配阈值；保存后立即生效"@,
        ),
        live_field(
            "wait_template_absent_stable_default"@,
            "模板消失后等稳定"@,
            KindView::Bool,
            "wait_template_absent 默认在模板消失后继续等待像素稳定；可在步骤上设置 stable_after_absent: false 关闭；保存后立即生效"@,
        ),
        live_field(
            "max_hold_key_seconds"@,
            "按住按键上限"@,
            int_kind(1, 86_400),
            "hold_key 单次按住按键允许的最大秒数；时长从命令参数读取；保存后立即生效"@,
        ),
        live_field(
            "templates"@,
            "自定义模板映射"@,
            KindView::Object,
            "自定义模板名到图片路径的映射，步骤里通过 template 引用这里的名字（高级 JSON 编辑）；保存后立即生效"@,
        ),
        live_field(
            "workflows"@,
            "自定义流程定义"@,
            KindView::Object,
            "自定义流程定义列表；支持的步骤与变量见配置模板注释（高级 JSON 编辑）；保存后立即生效"@,
        ),
    ]
}

/// The fields of the section `custom_workflows`.
pub fn custom_workflows_section() -> (r: Vec<ConfigFieldSchema>)
    ensures
        field_views(r@) == custom_workflows_fields(),
{
    let fields = vec![
        ConfigFieldSchema::db_live(
            "enabled",
            "启用自定义流程",
            FieldKind::Bool,
            "是否启用配置驱动的自定义流程命令；保存后立即生效",
        ),
        ConfigFieldSchema::db_live(
            "default_threshold",
            "模板默认阈值",
            float_of(0, 10),
            "模板默认匹配阈值；保存后立即生效",
        ),
        ConfigFieldSchema::db_live(
            "wait_template_absent_stable_default",
            "模板消失后等稳定",
            FieldKind::Bool,
            "wait_template_absent 默认在模板消失后继续等待像素稳定；可在步骤上设置 stable_after_absent: false 关闭；保存后立即生效",
        ),
        ConfigFieldSchema::db_live(
            "max_hold_key_seconds",
            "按住按键上限",
            int_of(1, 86_400),
            "hold_key 单次按住按键允许的最大秒数；时长从命令参数读取；保存后立即生效",
        ),
        ConfigFieldSchema::db_live(
            "templates",
            "自定义模板映射",
            FieldKind::Object,
            "自定义模板名到图片路径的映射，步骤里通过 template 引用这里的名字（高级 JSON 编辑）；保存后立即生效",
        ),
        ConfigFieldSchema::db_live(
            "workflows",
            "自定义流程定义",
            FieldKind::Object,
            "自定义流程定义列表；支持的步骤与变量见配置模板注释（高级 JSON 编辑）；保存后立即生效",
        ),
    ];
    proof {
        reveal(custom_workflows_fields);
        assert(field_views(fields@) =~= custom_workflows_fields());
    }
    fields
}

/// Which field of the section `custom_workflows` has a path.
spec fn custom_workflows_place(path: Seq<char>) -> int {
    if path.len() == 7 {
        0
    } else if path.len() == 17 {
        1
    } else if path.len() == 35 {
        2
    } else if path.len() == 20 {
        3
    } else if path.len() == 9 && path[0] == 't' {
        4
    } else {
        5
    }
}

/// The fields of the section `custom_workflows` are declared soundly, each path once.
pub proof fn lemma_custom_workflows_fields()
    ensures
        declared_soundly(custom_workflows_fields()),
        distinct_paths(custom_workflows_fields()),
        no_secrets(custom_workflows_fields()),
        custom_workflows_fields().len() == 6,
{
    reveal(custom_workflows_fields);
    let fields = custom_workflows_fields();
    assert(custom_workflows_place(fields[0].path) == 0) by {
        reveal_strlit("enabled");
    }
    assert(custom_workflows_place(fields[1].path) == 1) by {
        reveal_strlit("default_threshold");
    }
    assert(custom_workflows_place(fields[2].path) == 2) by {
        reveal_strlit("wait_template_absent_stable_default");
    }
    assert(custom_workflows_place(fields[3].path) == 3) by {
        reveal_strlit("max_hold_key_seconds");
    }
    assert(custom_workflows_place(fields[4].path) == 4) by {
        reveal_strlit("templates");
    }
    assert(custom_workflows_place(fields[5].path) == 5) by {
        reveal_strlit("workflows");
    }
    assert forall|i: int, j: int| 0 <= i < j < fields.len() implies (#[trigger] fields[i]).path
        != (#[trigger] fields[j]).path by {
        assert(custom_workflows_place(fields[i].path) == i);
        assert(custom_workflows_place(fields[j].path) == j);
    }
}
} // verus!
