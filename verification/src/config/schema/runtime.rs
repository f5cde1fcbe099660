//! The fields of the sections on how the program runs.
use vstd::prelude::*;
use crate::config::schema::bootstrap_field;
use crate::config::schema::declared_soundly;
use crate::config::schema::distinct_paths;
use crate::config::schema::enum_of;
use crate::config::schema::field_views;
use crate::config::schema::idle_field;
use crate::config::schema::int_kind;
use crate::config::schema::int_of;
use crate::config::schema::live_field;
use crate::config::schema::no_secrets;
use crate::config::schema::one_secret;
use crate::config::schema::ConfigFieldSchema;
use crate::config::schema::FieldKind;
use crate::config::schema::FieldView;
use crate::config::schema::KindView;
use crate::config::schema::MAX_STABLE_COUNT;

verus! {

/// The fields of the section `http`.
#[verifier::opaque]
pub open spec fn http_fields() -> Seq<FieldView> {
    seq![
        bootstrap_field(
            "enabled"@,
            "启用 Web 面板"@,
            KindView::Bool,
            "启动引导配置，在 config.yaml 修改后重启生效；是否启用 Web/API 面板"@,
        ),
        bootstrap_field(
            "host"@,
            "监听地址"@,
            KindView::String,
            "启动引导配置，在 config.yaml 修改后重启生效；Web/API 面板监听地址"@,
        ),
        bootstrap_field(
            "port"@,
            "监听端口"@,
            int_kind(1, 65535),
            "启动引导配置，在 config.yaml 修改后重启生效；Web/API 面板端口"@,
        ),
        bootstrap_field(
            "access_token"@,
            "访问令牌"@,
            KindView::Secret,
            "启动引导配置，在 config.yaml 修改后重启生效；非本机监听时必须设置；留空时由看门狗生成本次运行期临时令牌"@,
        ),
    ]
}

/// The fields of the section `http`.
pub fn http_section() -> (r: Vec<ConfigFieldSchema>)
    ensures
        field_views(r@) == http_fields(),
{
    let fields = vec![
        ConfigFieldSchema::bootstrap_restart(
            "enabled",
            "启用 Web 面板",
            FieldKind::Bool,
            "启动引导配置，在 config.yaml 修改后重启生效；是否启用 Web/API 面板",
        ),
        ConfigFieldSchema::bootstrap_restart(
            "host",
            "监听地址",
            FieldKind::String,
            "启动引导配置，在 config.yaml 修改后重启生效；Web/API 面板监听地址",
        ),
        ConfigFieldSchema::bootstrap_restart(
            "port",
            "监听端口",
            int_of(1, 65535),
            "启动引导配置，在 config.yaml 修改后重启生效；Web/API 面板端口",
        ),
        ConfigFieldSchema::bootstrap_restart(
            "access_token",
            "访问令牌",
            FieldKind::Secret,
            "启动引导配置，在 config.yaml 修改后重启生效；非本机监听时必须设置；留空时由看门狗生成本次运行期临时令牌",
        ),
    ];
    proof {
        reveal(http_fields);
        assert(field_views(fields@) =~= http_fields());
    }
    fields
}

/// Which field of the section `http` has a path.
spec fn http_place(path: Seq<char>) -> int {
    if path.len() == 7 {
        0
    } else if path.len() == 4 && path[0] == 'h' {
        1
    } else if path.len() == 4 {
        2
    } else {
        3
    }
}

/// The fields of the section `http` are declared soundly, each path once.
pub proof fn lemma_http_fields()
    ensures
        declared_soundly(http_fields()),
        distinct_paths(http_fields()),
        one_secret(http_fields(), 3),
        http_fields()[3].path == "access_token"@,
        http_fields().len() == 4,
{
    reveal(http_fields);
    let fields = http_fields();
    assert(http_place(fields[0].path) == 0) by {
        reveal_strlit("enabled");
    }
    assert(http_place(fields[1].path) == 1) by {
        reveal_strlit("host");
    }
    assert(http_place(fields[2].path) == 2) by {
        reveal_strlit("port");
    }
    assert(http_place(fields[3].path) == 3) by {
        reveal_strlit("access_token");
    }
    assert forall|i: int, j: int| 0 <= i < j < fields.len() implies (#[trigger] fields[i]).path
        != (#[trigger] fields[j]).path by {
        assert(http_place(fields[i].path) == i);
        assert(http_place(fields[j].path) == j);
    }
}

/// The fields of the section `logging`.
#[verifier::opaque]
pub open spec fn logging_fields() -> Seq<FieldView> {
    seq![
        bootstrap_field(
            "dir"@,
            "日志目录"@,
            KindView::Path,
            "启动引导配置，在 config.yaml 修改后重启生效；日志目录（相对 EXE 根目录）"@,
        ),
        bootstrap_field(
            "level"@,
            "日志级别"@,
            KindView::Enum(seq![("error"@, "错误"@), ("warn"@, "警告"@), ("info"@, "信息"@), ("debug"@, "调试"@), ("trace"@, "跟踪"@)]),
            "启动引导配置，在 config.yaml 修改后重启生效；日志级别"@,
        ),
        bootstrap_field(
            "rotate_daily"@,
            "按日轮转"@,
            KindView::Bool,
            "启动引导配置，在 config.yaml 修改后重启生效；是否按自然日分文件，启用后主日志和性能日志都会在跨日时自动轮转"@,
        ),
        bootstrap_field(
            "retain_days"@,
            "日志保留天数"@,
            int_kind(1, 3650),
            "启动引导配置，在 config.yaml 修改后重启生效；最多保留多少个自然日的按日日志"@,
        ),
    ]
}

/// The fields of the section `logging`.
pub fn logging_section() -> (r: Vec<ConfigFieldSchema>)
    ensures
        field_views(r@) == logging_fields(),
{
    let levels: Vec<(&'static str, &'static str)> = vec![("error", "错误"), ("warn", "警告"), ("info", "信息"), ("debug", "调试"), ("trace", "跟踪")];
    let levels_kind = enum_of(&levels);
    assert(levels_kind@ =~= KindView::Enum(seq![("error"@, "错误"@), ("warn"@, "警告"@), ("info"@, "信息"@), ("debug"@, "调试"@), ("trace"@, "跟踪"@)]));
    let fields = vec![
        ConfigFieldSchema::bootstrap_restart(
            "dir",
            "日志目录",
            FieldKind::Path,
            "启动引导配置，在 config.yaml 修改后重启生效；日志目录（相对 EXE 根目录）",
        ),
        ConfigFieldSchema::bootstrap_restart(
            "level",
            "日志级别",
            levels_kind,
            "启动引导配置，在 config.yaml 修改后重启生效；日志级别",
        ),
        ConfigFieldSchema::bootstrap_restart(
            "rotate_daily",
            "按日轮转",
            FieldKind::Bool,
            "启动引导配置，在 config.yaml 修改后重启生效；是否按自然日分文件，启用后主日志和性能日志都会在跨日时自动轮转",
        ),
        ConfigFieldSchema::bootstrap_restart(
            "retain_days",
            "日志保留天数",
            int_of(1, 3650),
            "启动引导配置，在 config.yaml 修改后重启生效；最多保留多少个自然日的按日日志",
        ),
    ];
    proof {
        reveal(logging_fields);
        assert(field_views(fields@) =~= logging_fields());
    }
    fields
}

/// Which field of the section `logging` has a path.
spec fn logging_place(path: Seq<char>) -> int {
    if path.len() == 3 {
        0
    } else if path.len() == 5 {
        1
    } else if path.len() == 12 {
        2
    } else {
        3
    }
}

/// The fields of the section `logging` are declared soundly, each path once.
pub proof fn lemma_logging_fields()
    ensures
        declared_soundly(logging_fields()),
        distinct_paths(logging_fields()),
        no_secrets(logging_fields()),
        logging_fields().len() == 4,
{
    reveal(logging_fields);
    let fields = logging_fields();
    assert(logging_place(fields[0].path) == 0) by {
        reveal_strlit("dir");
    }
    assert(logging_place(fields[1].path) == 1) by {
        reveal_strlit("level");
    }
    assert(logging_place(fields[2].path) == 2) by {
        reveal_strlit("rotate_daily");
    }
    assert(logging_place(fields[3].path) == 3) by {
        reveal_strlit("retain_days");
    }
    assert forall|i: int, j: int| 0 <= i < j < fields.len() implies (#[trigger] fields[i]).path
        != (#[trigger] fields[j]).path by {
        assert(logging_place(fields[i].path) == i);
        assert(logging_place(fields[j].path) == j);
    }
}

/// The fields of the section `tui`.
#[verifier::opaque]
pub open spec fn tui_fields() -> Seq<FieldView> {
    seq![
        idle_field(
            "enabled"@,
            "启用 TUI"@,
            KindView::Bool,
            "是否启用终端 TUI 面板；启用后实时显示事件日志、OCR 内容和队列状态"@,
        ),
        idle_field(
            "refresh_ms"@,
            "刷新间隔"@,
            int_kind(1, 60_000),
            "TUI 刷新间隔，单位毫秒"@,
        ),
        idle_field(
            "log_lines"@,
            "日志行数"@,
            int_kind(1, 10_000),
            "TUI 保留最近多少行日志"@,
        ),
    ]
}

/// The fields of the section `tui`.
pub fn tui_section() -> (r: Vec<ConfigFieldSchema>)
    ensures
        field_views(r@) == tui_fields(),
{
    let fields = vec![
        ConfigFieldSchema::db_idle_reload(
            "enabled",
            "启用 TUI",
            FieldKind::Bool,
            "是否启用终端 TUI 面板；启用后实时显示事件日志、OCR 内容和队列状态",
        ),
        ConfigFieldSchema::db_idle_reload(
            "refresh_ms",
            "刷新间隔",
            int_of(1, 60_000),
            "TUI 刷新间隔，单位毫秒",
        ),
        ConfigFieldSchema::db_idle_reload(
            "log_lines",
            "日志行数",
            int_of(1, 10_000),
            "TUI 保留最近多少行日志",
        ),
    ];
    proof {
        reveal(tui_fields);
        assert(field_views(fields@) =~= tui_fields());
    }
    fields
}

/// Which field of the section `tui` has a path.
spec fn tui_place(path: Seq<char>) -> int {
    if path.len() == 7 {
        0
    } else if path.len() == 10 {
        1
    } else {
        2
    }
}

/// The fields of the section `tui` are declared soundly, each path once.
pub proof fn lemma_tui_fields()
    ensures
        declared_soundly(tui_fields()),
        distinct_paths(tui_fields()),
        no_secrets(tui_fields()),
        tui_fields().len() == 3,
{
    reveal(tui_fields);
    let fields = tui_fields();
    assert(tui_place(fields[0].path) == 0) by {
        reveal_strlit("enabled");
    }
    assert(tui_place(fields[1].path) == 1) by {
        reveal_strlit("refresh_ms");
    }
    assert(tui_place(fields[2].path) == 2) by {
        reveal_strlit("log_lines");
    }
    assert forall|i: int, j: int| 0 <= i < j < fields.len() implies (#[trigger] fields[i]).path
        != (#[trigger] fields[j]).path by {
        assert(tui_place(fields[i].path) == i);
        assert(tui_place(fields[j].path) == j);
    }
}

/// The fields of the section `state`.
#[verifier::opaque]
pub open spec fn state_fields() -> Seq<FieldView> {
    seq![
        idle_field(
            "hall_state_path"@,
            "大厅状态路径"@,
            KindView::Path,
            "大厅倒计时状态持久化路径（相对 EXE 根目录）"@,
        ),
        live_field(
            "executed_commands_log_path"@,
            "命令记录路径"@,
            KindView::Path,
            "最终执行命令记录路径（相对 EXE 根目录）；保存后立即生效"@,
        ),
    ]
}

/// The fields of the section `state`.
pub fn state_section() -> (r: Vec<ConfigFieldSchema>)
    ensures
        field_views(r@) == state_fields(),
{
    let fields = vec![
        ConfigFieldSchema::db_idle_reload(
            "hall_state_path",
            "大厅状态路径",
            FieldKind::Path,
            "大厅倒计时状态持久化路径（相对 EXE 根目录）",
        ),
        ConfigFieldSchema::db_live(
            "executed_commands_log_path",
            "命令记录路径",
            FieldKind::Path,
            "最终执行命令记录路径（相对 EXE 根目录）；保存后立即生效",
        ),
    ];
    proof {
        reveal(state_fields);
        assert(field_views(fields@) =~= state_fields());
    }
    fields
}

/// Which field of the section `state` has a path.
spec fn state_place(path: Seq<char>) -> int {
    if path.len() == 15 {
        0
    } else {
        1
    }
}

/// The fields of the section `state` are declared soundly, each path once.
pub proof fn lemma_state_fields()
    ensures
        declared_soundly(state_fields()),
        distinct_paths(state_fields()),
        no_secrets(state_fields()),
        state_fields().len() == 2,
{
    reveal(state_fields);
    let fields = state_fields();
    assert(state_place(fields[0].path) == 0) by {
        reveal_strlit("hall_state_path");
    }
    assert(state_place(fields[1].path) == 1) by {
        reveal_strlit("executed_commands_log_path");
    }
    assert forall|i: int, j: int| 0 <= i < j < fields.len() implies (#[trigger] fields[i]).path
        != (#[trigger] fields[j]).path by {
        assert(state_place(fields[i].path) == i);
        assert(state_place(fields[j].path) == j);
    }
}

/// The fields of the section `hotkeys`.
#[verifier::opaque]
pub open spec fn hotkeys_fields() -> Seq<FieldView> {
    seq![
        idle_field(
            "enabled"@,
            "启用热键"@,
            KindView::Bool,
            "是否启用全局热键"@,
        ),
        idle_field(
            "pause_key"@,
            "暂停/恢复热键"@,
            KindView::String,
            "暂停/恢复热键"@,
        ),
        idle_field(
            "exit_key"@,
            "退出热键"@,
            KindView::String,
            "退出热键"@,
        ),
    ]
}

/// The fields of the section `hotkeys`.
pub fn hotkeys_section() -> (r: Vec<ConfigFieldSchema>)
    ensures
        field_views(r@) == hotkeys_fields(),
{
    let fields = vec![
        ConfigFieldSchema::db_idle_reload(
            "enabled",
            "启用热键",
            FieldKind::Bool,
            "是否启用全局热键",
        ),
        ConfigFieldSchema::db_idle_reload(
            "pause_key",
            "暂停/恢复热键",
            FieldKind::String,
            "暂停/恢复热键",
        ),
        ConfigFieldSchema::db_idle_reload(
            "exit_key",
            "退出热键",
            FieldKind::String,
            "退出热键",
        ),
    ];
    proof {
        reveal(hotkeys_fields);
        assert(field_views(fields@) =~= hotkeys_fields());
    }
    fields
}

/// Which field of the section `hotkeys` has a path.
spec fn hotkeys_place(path: Seq<char>) -> int {
    if path.len() == 7 {
        0
    } else if path.len() == 9 {
        1
    } else {
        2
    }
}

/// The fields of the section `hotkeys` are declared soundly, each path once.
pub proof fn lemma_hotkeys_fields()
    ensures
        declared_soundly(hotkeys_fields()),
        distinct_paths(hotkeys_fields()),
        no_secrets(hotkeys_fields()),
        hotkeys_fields().len() == 3,
{
    reveal(hotkeys_fields);
    let fields = hotkeys_fields();
    assert(hotkeys_place(fields[0].path) == 0) by {
        reveal_strlit("enabled");
    }
    assert(hotkeys_place(fields[1].path) == 1) by {
        reveal_strlit("pause_key");
    }
    assert(hotkeys_place(fields[2].path) == 2) by {
        reveal_strlit("exit_key");
    }
    assert forall|i: int, j: int| 0 <= i < j < fields.len() implies (#[trigger] fields[i]).path
        != (#[trigger] fields[j]).path by {
        assert(hotkeys_place(fields[i].path) == i);
        assert(hotkeys_place(fields[j].path) == j);
    }
}

/// The fields of the section `friend_delivery`.
#[verifier::opaque]
pub open spec fn friend_delivery_fields() -> Seq<FieldView> {
    seq![
        live_field(
            "auto_retry_count"@,
            "自动重试次数"@,
            int_kind(0, MAX_STABLE_COUNT as int),
            "好友投递中确认尚未发送项的自动重试次数；0 表示禁用；保存后立即生效"@,
        ),
    ]
}

/// The fields of the section `friend_delivery`.
pub fn friend_delivery_section() -> (r: Vec<ConfigFieldSchema>)
    ensures
        field_views(r@) == friend_delivery_fields(),
{
    let fields = vec![
        ConfigFieldSchema::db_live(
            "auto_retry_count",
            "自动重试次数",
            int_of(0, MAX_STABLE_COUNT),
            "好友投递中确认尚未发送项的自动重试次数；0 表示禁用；保存后立即生效",
        ),
    ];
    proof {
        reveal(friend_delivery_fields);
        assert(field_views(fields@) =~= friend_delivery_fields());
    }
    fields
}

/// The fields of the section `friend_delivery` are declared soundly, each path once.
pub proof fn lemma_friend_delivery_fields()
    ensures
        declared_soundly(friend_delivery_fields()),
        distinct_paths(friend_delivery_fields()),
        no_secrets(friend_delivery_fields()),
        friend_delivery_fields().len() == 1,
{
    reveal(friend_delivery_fields);
    let fields = friend_delivery_fields();
}
} // verus!
