//! The fields of the sections on the window, the screen and what is read from it.
use vstd::prelude::*;
use crate::config::schema::declared_soundly;
use crate::config::schema::distinct_paths;
use crate::config::schema::field_views;
use crate::config::schema::float_kind;
use crate::config::schema::float_of;
use crate::config::schema::idle_field;
use crate::config::schema::int_kind;
use crate::config::schema::int_of;
use crate::config::schema::live_field;
use crate::config::schema::no_secrets;
use crate::config::schema::ConfigFieldSchema;
use crate::config::schema::FieldKind;
use crate::config::schema::FieldView;
use crate::config::schema::KindView;
use crate::config::schema::MAX_STABLE_COUNT;
use crate::config::schema::MAX_TIMEOUT_MS;

verus! {

/// The fields of the section `window`.
#[verifier::opaque]
pub open spec fn window_fields() -> Seq<FieldView> {
    seq![
        idle_field(
            "target_process"@,
            "目标进程名"@,
            KindView::String,
            "目标游戏进程名，按进程文件名匹配，大小写不敏感；多个进程名可用逗号分隔"@,
        ),
        idle_field(
            "content_width"@,
            "画面宽度"@,
            int_kind(1, 65535),
            "配置坐标对应的游戏有效画面宽度，必须与 screen.expected_width 一致"@,
        ),
        idle_field(
            "content_height"@,
            "画面高度"@,
            int_kind(1, 65535),
            "配置坐标对应的游戏有效画面高度，必须与 screen.expected_height 一致"@,
        ),
        idle_field(
            "auto_activate_window"@,
            "自动激活窗口"@,
            KindView::Bool,
            "/active-window 接口是否尝试自动切回目标窗口"@,
        ),
        idle_field(
            "focus_point"@,
            "安全聚焦点"@,
            KindView::Point,
            "全局安全聚焦点，只在业务入口显式激活/聚焦游戏窗口时使用一次"@,
        ),
    ]
}

/// The fields of the section `window`.
pub fn window_section() -> (r: Vec<ConfigFieldSchema>)
    ensures
        field_views(r@) == window_fields(),
{
    let fields = vec![
        ConfigFieldSchema::db_idle_reload(
            "target_process",
            "目标进程名",
            FieldKind::String,
            "目标游戏进程名，按进程文件名匹配，大小写不敏感；多个进程名可用逗号分隔",
        ),
        ConfigFieldSchema::db_idle_reload(
            "content_width",
            "画面宽度",
            int_of(1, 65535),
            "配置坐标对应的游戏有效画面宽度，必须与 screen.expected_width 一致",
        ),
        ConfigFieldSchema::db_idle_reload(
            "content_height",
            "画面高度",
            int_of(1, 65535),
            "配置坐标对应的游戏有效画面高度，必须与 screen.expected_height 一致",
        ),
        ConfigFieldSchema::db_idle_reload(
            "auto_activate_window",
            "自动激活窗口",
            FieldKind::Bool,
            "/active-window 接口是否尝试自动切回目标窗口",
        ),
        ConfigFieldSchema::db_idle_reload(
            "focus_point",
            "安全聚焦点",
            FieldKind::Point,
            "全局安全聚焦点，只在业务入口显式激活/聚焦游戏窗口时使用一次",
        ),
    ];
    proof {
        reveal(window_fields);
        assert(field_views(fields@) =~= window_fields());
    }
    fields
}

/// Which field of the section `window` has a path.
spec fn window_place(path: Seq<char>) -> int {
    if path.len() == 14 && path[0] == 't' {
        0
    } else if path.len() == 13 {
        1
    } else if path.len() == 14 {
        2
    } else if path.len() == 20 {
        3
    } else {
        4
    }
}

/// The fields of the section `window` are declared soundly, each path once.
pub proof fn lemma_window_fields()
    ensures
        declared_soundly(window_fields()),
        distinct_paths(window_fields()),
        no_secrets(window_fields()),
        window_fields().len() == 5,
{
    reveal(window_fields);
    let fields = window_fields();
    assert(window_place(fields[0].path) == 0) by {
        reveal_strlit("target_process");
    }
    assert(window_place(fields[1].path) == 1) by {
        reveal_strlit("content_width");
    }
    assert(window_place(fields[2].path) == 2) by {
        reveal_strlit("content_height");
    }
    assert(window_place(fields[3].path) == 3) by {
        reveal_strlit("auto_activate_window");
    }
    assert(window_place(fields[4].path) == 4) by {
        reveal_strlit("focus_point");
    }
    assert forall|i: int, j: int| 0 <= i < j < fields.len() implies (#[trigger] fields[i]).path
        != (#[trigger] fields[j]).path by {
        assert(window_place(fields[i].path) == i);
        assert(window_place(fields[j].path) == j);
    }
}

/// The fields of the section `screen`.
#[verifier::opaque]
pub open spec fn screen_fields() -> Seq<FieldView> {
    seq![
        idle_field(
            "expected_width"@,
            "预期宽度"@,
            int_kind(1, 65535),
            "截图会缩放到这个宽度后再做模板匹配和 OCR；必须与 window.content_width 一致"@,
        ),
        idle_field(
            "expected_height"@,
            "预期高度"@,
            int_kind(1, 65535),
            "截图会缩放到这个高度后再做模板匹配和 OCR；必须与 window.content_height 一致"@,
        ),
        idle_field(
            "warn_on_size_mismatch"@,
            "尺寸不符警告"@,
            KindView::Bool,
            "截图尺寸和预期不一致时是否记录 warning"@,
        ),
        idle_field(
            "chat_rect"@,
            "聊天区域"@,
            KindView::Rect,
            "聊天区域，用于匹配蓝/黄/粉聊天标志和 OCR 聊天文本"@,
        ),
        idle_field(
            "friend_rect"@,
            "好友按钮区域"@,
            KindView::Rect,
            "一级聊天界面无聊天内容时好友按钮模板检测区域；有聊天内容时由蓝/黄/粉标识判定"@,
        ),
        idle_field(
            "secondary_back_rect"@,
            "返回按钮区域"@,
            KindView::Rect,
            "二级聊天界面左上角返回按钮模板检测区域"@,
        ),
        idle_field(
            "secondary_hall_rect"@,
            "二级大厅区域"@,
            KindView::Rect,
            "二级大厅/面板界面模板检测区域"@,
        ),
        idle_field(
            "hall_name_rect"@,
            "大厅名称区域"@,
            KindView::Rect,
            "F2 大厅页顶部大厅名称 OCR 区域"@,
        ),
        idle_field(
            "hall_member_count_rect"@,
            "成员人数区域"@,
            KindView::Rect,
            "大厅成员人数 OCR 区域，用于判断是否需要滚动右侧成员列表"@,
        ),
        idle_field(
            "hall_time_rect"@,
            "剩余时间区域"@,
            KindView::Rect,
            "F2 大厅页剩余时间 OCR 区域，只保留识别到的分钟数字"@,
        ),
        idle_field(
            "hall_member_list_rect"@,
            "成员列表区域"@,
            KindView::Rect,
            "F2 大厅页成员列表滚动区域；拖动点位约在画布宽度的 2/3 处"@,
        ),
    ]
}

/// The fields of the section `screen`.
pub fn screen_section() -> (r: Vec<ConfigFieldSchema>)
    ensures
        field_views(r@) == screen_fields(),
{
    let fields = vec![
        ConfigFieldSchema::db_idle_reload(
            "expected_width",
            "预期宽度",
            int_of(1, 65535),
            "截图会缩放到这个宽度后再做模板匹配和 OCR；必须与 window.content_width 一致",
        ),
        ConfigFieldSchema::db_idle_reload(
            "expected_height",
            "预期高度",
            int_of(1, 65535),
            "截图会缩放到这个高度后再做模板匹配和 OCR；必须与 window.content_height 一致",
        ),
        ConfigFieldSchema::db_idle_reload(
            "warn_on_size_mismatch",
            "尺寸不符警告",
            FieldKind::Bool,
            "截图尺寸和预期不一致时是否记录 warning",
        ),
        ConfigFieldSchema::db_idle_reload(
            "chat_rect",
            "聊天区域",
            FieldKind::Rect,
            "聊天区域，用于匹配蓝/黄/粉聊天标志和 OCR 聊天文本",
        ),
        ConfigFieldSchema::db_idle_reload(
            "friend_rect",
            "好友按钮区域",
            FieldKind::Rect,
            "一级聊天界面无聊天内容时好友按钮模板检测区域；有聊天内容时由蓝/黄/粉标识判定",
        ),
        ConfigFieldSchema::db_idle_reload(
            "secondary_back_rect",
            "返回按钮区域",
            FieldKind::Rect,
            "二级聊天界面左上角返回按钮模板检测区域",
        ),
        ConfigFieldSchema::db_idle_reload(
            "secondary_hall_rect",
            "二级大厅区域",
            FieldKind::Rect,
            "二级大厅/面板界面模板检测区域",
        ),
        ConfigFieldSchema::db_idle_reload(
            "hall_name_rect",
            "大厅名称区域",
            FieldKind::Rect,
            "F2 大厅页顶部大厅名称 OCR 区域",
        ),
        ConfigFieldSchema::db_idle_reload(
            "hall_member_count_rect",
            "成员人数区域",
            FieldKind::Rect,
            "大厅成员人数 OCR 区域，用于判断是否需要滚动右侧成员列表",
        ),
        ConfigFieldSchema::db_idle_reload(
            "hall_time_rect",
            "剩余时间区域",
            FieldKind::Rect,
            "F2 大厅页剩余时间 OCR 区域，只保留识别到的分钟数字",
        ),
        ConfigFieldSchema::db_idle_reload(
            "hall_member_list_rect",
            "成员列表区域",
            FieldKind::Rect,
            "F2 大厅页成员列表滚动区域；拖动点位约在画布宽度的 2/3 处",
        ),
    ];
    proof {
        reveal(screen_fields);
        assert(field_views(fields@) =~= screen_fields());
    }
    fields
}

/// Which field of the section `screen` has a path.
spec fn screen_place(path: Seq<char>) -> int {
    if path.len() == 14 && path[0] == 'e' {
        0
    } else if path.len() == 15 {
        1
    } else if path.len() == 21 && path[0] == 'w' {
        2
    } else if path.len() == 9 {
        3
    } else if path.len() == 11 {
        4
    } else if path.len() == 19 && path[10] == 'b' {
        5
    } else if path.len() == 19 {
        6
    } else if path.len() == 14 && path[5] == 'n' {
        7
    } else if path.len() == 22 {
        8
    } else if path.len() == 14 {
        9
    } else {
        10
    }
}

/// The fields of the section `screen` are declared soundly, each path once.
pub proof fn lemma_screen_fields()
    ensures
        declared_soundly(screen_fields()),
        distinct_paths(screen_fields()),
        no_secrets(screen_fields()),
        screen_fields().len() == 11,
{
    reveal(screen_fields);
    let fields = screen_fields();
    assert(screen_place(fields[0].path) == 0) by {
        reveal_strlit("expected_width");
    }
    assert(screen_place(fields[1].path) == 1) by {
        reveal_strlit("expected_height");
    }
    assert(screen_place(fields[2].path) == 2) by {
        reveal_strlit("warn_on_size_mismatch");
    }
    assert(screen_place(fields[3].path) == 3) by {
        reveal_strlit("chat_rect");
    }
    assert(screen_place(fields[4].path) == 4) by {
        reveal_strlit("friend_rect");
    }
    assert(screen_place(fields[5].path) == 5) by {
        reveal_strlit("secondary_back_rect");
    }
    assert(screen_place(fields[6].path) == 6) by {
        reveal_strlit("secondary_hall_rect");
    }
    assert(screen_place(fields[7].path) == 7) by {
        reveal_strlit("hall_name_rect");
    }
    assert(screen_place(fields[8].path) == 8) by {
        reveal_strlit("hall_member_count_rect");
    }
    assert(screen_place(fields[9].path) == 9) by {
        reveal_strlit("hall_time_rect");
    }
    assert(screen_place(fields[10].path) == 10) by {
        reveal_strlit("hall_member_list_rect");
    }
    assert forall|i: int, j: int| 0 <= i < j < fields.len() implies (#[trigger] fields[i]).path
        != (#[trigger] fields[j]).path by {
        assert(screen_place(fields[i].path) == i);
        assert(screen_place(fields[j].path) == j);
    }
}

/// The fields of the section `stability`.
#[verifier::opaque]
pub open spec fn stability_fields() -> Seq<FieldView> {
    seq![
        idle_field(
            "default_count"@,
            "全局稳定确认次数"@,
            int_kind(0, MAX_STABLE_COUNT as int),
            "连续确认次数的全局默认值；只有大于 1 才生效，否则使用内置默认值 2"@,
        ),
        idle_field(
            "ui_state_count"@,
            "UI 状态确认次数"@,
            int_kind(0, MAX_STABLE_COUNT as int),
            "公共 UI 模板状态的局部覆盖；大于 1 时优先，否则继承 default_count"@,
        ),
        live_field(
            "secondary_hall_count"@,
            "二级大厅确认次数"@,
            int_kind(0, MAX_STABLE_COUNT as int),
            "二级大厅气泡与发送者关联的局部覆盖；大于 1 时优先，否则继承 default_count；保存后立即生效"@,
        ),
    ]
}

/// The fields of the section `stability`.
pub fn stability_section() -> (r: Vec<ConfigFieldSchema>)
    ensures
        field_views(r@) == stability_fields(),
{
    let fields = vec![
        ConfigFieldSchema::db_idle_reload(
            "default_count",
            "全局稳定确认次数",
            int_of(0, MAX_STABLE_COUNT),
            "连续确认次数的全局默认值；只有大于 1 才生效，否则使用内置默认值 2",
        ),
        ConfigFieldSchema::db_idle_reload(
            "ui_state_count",
            "UI 状态确认次数",
            int_of(0, MAX_STABLE_COUNT),
            "公共 UI 模板状态的局部覆盖；大于 1 时优先，否则继承 default_count",
        ),
        ConfigFieldSchema::db_live(
            "secondary_hall_count",
            "二级大厅确认次数",
            int_of(0, MAX_STABLE_COUNT),
            "二级大厅气泡与发送者关联的局部覆盖；大于 1 时优先，否则继承 default_count；保存后立即生效",
        ),
    ];
    proof {
        reveal(stability_fields);
        assert(field_views(fields@) =~= stability_fields());
    }
    fields
}

/// Which field of the section `stability` has a path.
spec fn stability_place(path: Seq<char>) -> int {
    if path.len() == 13 {
        0
    } else if path.len() == 14 {
        1
    } else {
        2
    }
}

/// The fields of the section `stability` are declared soundly, each path once.
pub proof fn lemma_stability_fields()
    ensures
        declared_soundly(stability_fields()),
        distinct_paths(stability_fields()),
        no_secrets(stability_fields()),
        stability_fields().len() == 3,
{
    reveal(stability_fields);
    let fields = stability_fields();
    assert(stability_place(fields[0].path) == 0) by {
        reveal_strlit("default_count");
    }
    assert(stability_place(fields[1].path) == 1) by {
        reveal_strlit("ui_state_count");
    }
    assert(stability_place(fields[2].path) == 2) by {
        reveal_strlit("secondary_hall_count");
    }
    assert forall|i: int, j: int| 0 <= i < j < fields.len() implies (#[trigger] fields[i]).path
        != (#[trigger] fields[j]).path by {
        assert(stability_place(fields[i].path) == i);
        assert(stability_place(fields[j].path) == j);
    }
}

/// The fields of the section `ocr`.
#[verifier::opaque]
pub open spec fn ocr_fields() -> Seq<FieldView> {
    seq![
        idle_field(
            "det_model"@,
            "检测模型"@,
            KindView::Path,
            "MNN/PaddleOCR 检测模型路径；OpenVINO-only 配置可设为 null 或省略"@,
        ).nullable(),
        idle_field(
            "rec_model"@,
            "识别模型"@,
            KindView::Path,
            "MNN/PaddleOCR 识别模型路径；OpenVINO-only 配置可设为 null 或省略"@,
        ).nullable(),
        idle_field(
            "charset"@,
            "字符集"@,
            KindView::Path,
            "PaddleOCR 字符集路径"@,
        ),
        idle_field(
            "min_confidence"@,
            "最低置信度"@,
            float_kind(0, 10),
            "OCR 最低置信度，低于该值的结果会被过滤"@,
        ),
        idle_field(
            "threads"@,
            "OCR 线程数"@,
            int_kind(1, 1024),
            "OCR 线程数"@,
        ),
        idle_field(
            "request_timeout_ms"@,
            "请求超时"@,
            int_kind(1, MAX_TIMEOUT_MS as int),
            "单次 OCR 请求从入队到返回的最长时间，单位毫秒"@,
        ),
        idle_field(
            "shutdown_timeout_ms"@,
            "关闭超时"@,
            int_kind(1, MAX_TIMEOUT_MS as int),
            "关闭时等待底层 OCR 推理退出的最长时间，单位毫秒"@,
        ),
        idle_field(
            "backend_priority"@,
            "后端优先级"@,
            KindView::StringArray,
            "OCR 后端优先级；可用值: cuda, vulkan, opencl, openvino, cpu。引擎逐个尝试、失败自动回退到下一个"@,
        ),
        idle_field(
            "openvino.det_model"@,
            "OpenVINO 检测模型"@,
            KindView::Path,
            "检测模型 XML 文件（OpenVINO IR）；选择 openvino 后端时不能为空"@,
        ).nullable(),
        idle_field(
            "openvino.det_weights"@,
            "OpenVINO 检测权重"@,
            KindView::Path,
            "检测模型权重文件，与 det_model 配对；选择 openvino 后端时不能为空"@,
        ).nullable(),
        idle_field(
            "openvino.rec_model"@,
            "OpenVINO 识别模型"@,
            KindView::Path,
            "识别模型 XML 文件（OpenVINO IR）；选择 openvino 后端时不能为空"@,
        ).nullable(),
        idle_field(
            "openvino.rec_weights"@,
            "OpenVINO 识别权重"@,
            KindView::Path,
            "识别模型权重文件，与 rec_model 配对；选择 openvino 后端时不能为空"@,
        ).nullable(),
        idle_field(
            "openvino.device"@,
            "OpenVINO 设备"@,
            KindView::String,
            "OpenVINO 设备名，通常为 CPU（安装时可选用 GPU/NPU）"@,
        ),
        idle_field(
            "openvino.cache_dir"@,
            "OpenVINO 编译缓存"@,
            KindView::Path,
            "OpenVINO GPU/CPU 编译缓存，首次启动会预热聊天 OCR 的固定形状；设置为空可关闭缓存"@,
        ).nullable(),
        idle_field(
            "det_max_side_len"@,
            "检测最长边"@,
            int_kind(1, 8192),
            "检测模型最长边限制；保持 960 与 PaddleOCR/BetterGI 常用配置一致"@,
        ),
        idle_field(
            "det_score_threshold"@,
            "检测分割阈值"@,
            float_kind(0, 10),
            "检测分割阈值；越低越容易检出细小文字，也更容易产生噪声框"@,
        ),
        idle_field(
            "det_unclip_ratio"@,
            "文本框外扩比例"@,
            float_kind(1, 100),
            "文本框外扩比例；2.0 更接近 BetterGI，减少裁掉边缘字符"@,
        ),
        idle_field(
            "det_min_area"@,
            "最小文本框面积"@,
            int_kind(1, 100_000),
            "最小文本框面积；小聊天文字用较低值，避免漏掉短命令"@,
        ),
        idle_field(
            "det_box_border"@,
            "额外裁剪边框"@,
            int_kind(0, 100),
            "OCR 库额外裁剪边框；BetterGI 主要依赖 unclip 外扩，这里关闭额外扩边"@,
        ),
        idle_field(
            "change_mean_threshold"@,
            "画面变化均值阈值"@,
            float_kind(0, 2550),
            "聊天区缩略图平均像素差超过该值时认为画面有变化"@,
        ),
        idle_field(
            "change_pixel_threshold"@,
            "画面变化像素阈值"@,
            float_kind(0, 10),
            "聊天区缩略图变化像素比例超过该值时认为画面有变化"@,
        ),
        idle_field(
            "text_left_gap"@,
            "标志右侧间距"@,
            int_kind(0, 1000),
            "聊天标志右侧到文本区域的间距"@,
        ),
        idle_field(
            "block_top_padding"@,
            "块顶部扩展"@,
            int_kind(0, 1000),
            "聊天消息块顶部向上扩展像素"@,
        ),
        idle_field(
            "block_bottom_padding"@,
            "块底部收缩"@,
            int_kind(0, 1000),
            "聊天消息块底部向上收缩像素，避免吃到下一条标志"@,
        ),
        idle_field(
            "max_block_height"@,
            "消息块最大高度"@,
            int_kind(1, 10_000),
            "单条聊天消息 OCR 块最大高度"@,
        ),
        idle_field(
            "same_line_y_tolerance"@,
            "同行 Y 容差"@,
            int_kind(0, 1000),
            "OCR 结果合并为同一行的 Y 轴容差"@,
        ),
        idle_field(
            "marker_dedupe_x"@,
            "标志去重 X 容差"@,
            int_kind(0, 1000),
            "聊天标志去重 X 轴容差"@,
        ),
        idle_field(
            "marker_dedupe_y"@,
            "标志去重 Y 容差"@,
            int_kind(0, 1000),
            "聊天标志去重 Y 轴容差"@,
        ),
        idle_field(
            "next_marker_min_gap"@,
            "标志最小间隔"@,
            int_kind(0, 10_000),
            "判定下一条聊天标志的最小 Y 轴间隔"@,
        ),
        idle_field(
            "right_padding"@,
            "文本右侧留白"@,
            int_kind(0, 1000),
            "聊天文本区域右侧留白"@,
        ),
        idle_field(
            "batch_recognize"@,
            "批量识别"@,
            KindView::Bool,
            "实验性：将聊天块拼接为单张图片一次性 OCR，减少推理次数"@,
        ),
    ]
}

/// The fields of the section `ocr`.
pub fn ocr_section() -> (r: Vec<ConfigFieldSchema>)
    ensures
        field_views(r@) == ocr_fields(),
{
    let fields = vec![
        ConfigFieldSchema::db_idle_reload(
            "det_model",
            "检测模型",
            FieldKind::Path,
            "MNN/PaddleOCR 检测模型路径；OpenVINO-only 配置可设为 null 或省略",
        ).nullable(),
        ConfigFieldSchema::db_idle_reload(
            "rec_model",
            "识别模型",
            FieldKind::Path,
            "MNN/PaddleOCR 识别模型路径；OpenVINO-only 配置可设为 null 或省略",
        ).nullable(),
        ConfigFieldSchema::db_idle_reload(
            "charset",
            "字符集",
            FieldKind::Path,
            "PaddleOCR 字符集路径",
        ),
        ConfigFieldSchema::db_idle_reload(
            "min_confidence",
            "最低置信度",
            float_of(0, 10),
            "OCR 最低置信度，低于该值的结果会被过滤",
        ),
        ConfigFieldSchema::db_idle_reload(
            "threads",
            "OCR 线程数",
            int_of(1, 1024),
            "OCR 线程数",
        ),
        ConfigFieldSchema::db_idle_reload(
            "request_timeout_ms",
            "请求超时",
            int_of(1, MAX_TIMEOUT_MS),
            "单次 OCR 请求从入队到返回的最长时间，单位毫秒",
        ),
        ConfigFieldSchema::db_idle_reload(
            "shutdown_timeout_ms",
            "关闭超时",
            int_of(1, MAX_TIMEOUT_MS),
            "关闭时等待底层 OCR 推理退出的最长时间，单位毫秒",
        ),
        ConfigFieldSchema::db_idle_reload(
            "backend_priority",
            "后端优先级",
            FieldKind::StringArray,
            "OCR 后端优先级；可用值: cuda, vulkan, opencl, openvino, cpu。引擎逐个尝试、失败自动回退到下一个",
        ),
        ConfigFieldSchema::db_idle_reload(
            "openvino.det_model",
            "OpenVINO 检测模型",
            FieldKind::Path,
            "检测模型 XML 文件（OpenVINO IR）；选择 openvino 后端时不能为空",
        ).nullable(),
        ConfigFieldSchema::db_idle_reload(
            "openvino.det_weights",
            "OpenVINO 检测权重",
            FieldKind::Path,
            "检测模型权重文件，与 det_model 配对；选择 openvino 后端时不能为空",
        ).nullable(),
        ConfigFieldSchema::db_idle_reload(
            "openvino.rec_model",
            "OpenVINO 识别模型",
            FieldKind::Path,
            "识别模型 XML 文件（OpenVINO IR）；选择 openvino 后端时不能为空",
        ).nullable(),
        ConfigFieldSchema::db_idle_reload(
            "openvino.rec_weights",
            "OpenVINO 识别权重",
            FieldKind::Path,
            "识别模型权重文件，与 rec_model 配对；选择 openvino 后端时不能为空",
        ).nullable(),
        ConfigFieldSchema::db_idle_reload(
            "openvino.device",
            "OpenVINO 设备",
            FieldKind::String,
            "OpenVINO 设备名，通常为 CPU（安装时可选用 GPU/NPU）",
        ),
        ConfigFieldSchema::db_idle_reload(
            "openvino.cache_dir",
            "OpenVINO 编译缓存",
            FieldKind::Path,
            "OpenVINO GPU/CPU 编译缓存，首次启动会预热聊天 OCR 的固定形状；设置为空可关闭缓存",
        ).nullable(),
        ConfigFieldSchema::db_idle_reload(
            "det_max_side_len",
            "检测最长边",
            int_of(1, 8192),
            "检测模型最长边限制；保持 960 与 PaddleOCR/BetterGI 常用配置一致",
        ),
        ConfigFieldSchema::db_idle_reload(
            "det_score_threshold",
            "检测分割阈值",
            float_of(0, 10),
            "检测分割阈值；越低越容易检出细小文字，也更容易产生噪声框",
        ),
        ConfigFieldSchema::db_idle_reload(
            "det_unclip_ratio",
            "文本框外扩比例",
            float_of(1, 100),
            "文本框外扩比例；2.0 更接近 BetterGI，减少裁掉边缘字符",
        ),
        ConfigFieldSchema::db_idle_reload(
            "det_min_area",
            "最小文本框面积",
            int_of(1, 100_000),
            "最小文本框面积；小聊天文字用较低值，避免漏掉短命令",
        ),
        ConfigFieldSchema::db_idle_reload(
            "det_box_border",
            "额外裁剪边框",
            int_of(0, 100),
            "OCR 库额外裁剪边框；BetterGI 主要依赖 unclip 外扩，这里关闭额外扩边",
        ),
        ConfigFieldSchema::db_idle_reload(
            "change_mean_threshold",
            "画面变化均值阈值",
            float_of(0, 2550),
            "聊天区缩略图平均像素差超过该值时认为画面有变化",
        ),
        ConfigFieldSchema::db_idle_reload(
            "change_pixel_threshold",
            "画面变化像素阈值",
            float_of(0, 10),
            "聊天区缩略图变化像素比例超过该值时认为画面有变化",
        ),
        ConfigFieldSchema::db_idle_reload(
            "text_left_gap",
            "标志右侧间距",
            int_of(0, 1000),
            "聊天标志右侧到文本区域的间距",
        ),
        ConfigFieldSchema::db_idle_reload(
            "block_top_padding",
            "块顶部扩展",
            int_of(0, 1000),
            "聊天消息块顶部向上扩展像素",
        ),
        ConfigFieldSchema::db_idle_reload(
            "block_bottom_padding",
            "块底部收缩",
            int_of(0, 1000),
            "聊天消息块底部向上收缩像素，避免吃到下一条标志",
        ),
        ConfigFieldSchema::db_idle_reload(
            "max_block_height",
            "消息块最大高度",
            int_of(1, 10_000),
            "单条聊天消息 OCR 块最大高度",
        ),
        ConfigFieldSchema::db_idle_reload(
            "same_line_y_tolerance",
            "同行 Y 容差",
            int_of(0, 1000),
            "OCR 结果合并为同一行的 Y 轴容差",
        ),
        ConfigFieldSchema::db_idle_reload(
            "marker_dedupe_x",
            "标志去重 X 容差",
            int_of(0, 1000),
            "聊天标志去重 X 轴容差",
        ),
        ConfigFieldSchema::db_idle_reload(
            "marker_dedupe_y",
            "标志去重 Y 容差",
            int_of(0, 1000),
            "聊天标志去重 Y 轴容差",
        ),
        ConfigFieldSchema::db_idle_reload(
            "next_marker_min_gap",
            "标志最小间隔",
            int_of(0, 10_000),
            "判定下一条聊天标志的最小 Y 轴间隔",
        ),
        ConfigFieldSchema::db_idle_reload(
            "right_padding",
            "文本右侧留白",
            int_of(0, 1000),
            "聊天文本区域右侧留白",
        ),
        ConfigFieldSchema::db_idle_reload(
            "batch_recognize",
            "批量识别",
            FieldKind::Bool,
            "实验性：将聊天块拼接为单张图片一次性 OCR，减少推理次数",
        ),
    ];
    proof {
        reveal(ocr_fields);
        assert(field_views(fields@) =~= ocr_fields());
    }
    fields
}

/// Which field of the section `ocr` has a path.
spec fn ocr_place(path: Seq<char>) -> int {
    if path.len() == 9 && path[0] == 'd' {
        0
    } else if path.len() == 9 {
        1
    } else if path.len() == 7 && path[0] == 'c' {
        2
    } else if path.len() == 14 && path[0] == 'm' {
        3
    } else if path.len() == 7 {
        4
    } else if path.len() == 18 && path[0] == 'r' {
        5
    } else if path.len() == 19 && path[0] == 's' {
        6
    } else if path.len() == 16 && path[0] == 'b' {
        7
    } else if path.len() == 18 && path[9] == 'd' {
        8
    } else if path.len() == 20 && path[9] == 'd' {
        9
    } else if path.len() == 18 && path[9] == 'r' {
        10
    } else if path.len() == 20 && path[0] == 'o' {
        11
    } else if path.len() == 15 && path[0] == 'o' {
        12
    } else if path.len() == 18 {
        13
    } else if path.len() == 16 && path[4] == 'm' {
        14
    } else if path.len() == 19 && path[0] == 'd' {
        15
    } else if path.len() == 16 && path[0] == 'd' {
        16
    } else if path.len() == 12 {
        17
    } else if path.len() == 14 {
        18
    } else if path.len() == 21 && path[0] == 'c' {
        19
    } else if path.len() == 22 {
        20
    } else if path.len() == 13 && path[0] == 't' {
        21
    } else if path.len() == 17 {
        22
    } else if path.len() == 20 {
        23
    } else if path.len() == 16 {
        24
    } else if path.len() == 21 {
        25
    } else if path.len() == 15 && path[14] == 'x' {
        26
    } else if path.len() == 15 && path[0] == 'm' {
        27
    } else if path.len() == 19 {
        28
    } else if path.len() == 13 {
        29
    } else {
        30
    }
}

/// The fields of the section `ocr` are declared soundly, each path once.
pub proof fn lemma_ocr_fields()
    ensures
        declared_soundly(ocr_fields()),
        distinct_paths(ocr_fields()),
        no_secrets(ocr_fields()),
        ocr_fields().len() == 31,
{
    reveal(ocr_fields);
    let fields = ocr_fields();
    assert(ocr_place(fields[0].path) == 0) by {
        reveal_strlit("det_model");
    }
    assert(ocr_place(fields[1].path) == 1) by {
        reveal_strlit("rec_model");
    }
    assert(ocr_place(fields[2].path) == 2) by {
        reveal_strlit("charset");
    }
    assert(ocr_place(fields[3].path) == 3) by {
        reveal_strlit("min_confidence");
    }
    assert(ocr_place(fields[4].path) == 4) by {
        reveal_strlit("threads");
    }
    assert(ocr_place(fields[5].path) == 5) by {
        reveal_strlit("request_timeout_ms");
    }
    assert(ocr_place(fields[6].path) == 6) by {
        reveal_strlit("shutdown_timeout_ms");
    }
    assert(ocr_place(fields[7].path) == 7) by {
        reveal_strlit("backend_priority");
    }
    assert(ocr_place(fields[8].path) == 8) by {
        reveal_strlit("openvino.det_model");
    }
    assert(ocr_place(fields[9].path) == 9) by {
        reveal_strlit("openvino.det_weights");
    }
    assert(ocr_place(fields[10].path) == 10) by {
        reveal_strlit("openvino.rec_model");
    }
    assert(ocr_place(fields[11].path) == 11) by {
        reveal_strlit("openvino.rec_weights");
    }
    assert(ocr_place(fields[12].path) == 12) by {
        reveal_strlit("openvino.device");
    }
    assert(ocr_place(fields[13].path) == 13) by {
        reveal_strlit("openvino.cache_dir");
    }
    assert(ocr_place(fields[14].path) == 14) by {
        reveal_strlit("det_max_side_len");
    }
    assert(ocr_place(fields[15].path) == 15) by {
        reveal_strlit("det_score_threshold");
    }
    assert(ocr_place(fields[16].path) == 16) by {
        reveal_strlit("det_unclip_ratio");
    }
    assert(ocr_place(fields[17].path) == 17) by {
        reveal_strlit("det_min_area");
    }
    assert(ocr_place(fields[18].path) == 18) by {
        reveal_strlit("det_box_border");
    }
    assert(ocr_place(fields[19].path) == 19) by {
        reveal_strlit("change_mean_threshold");
    }
    assert(ocr_place(fields[20].path) == 20) by {
        reveal_strlit("change_pixel_threshold");
    }
    assert(ocr_place(fields[21].path) == 21) by {
        reveal_strlit("text_left_gap");
    }
    assert(ocr_place(fields[22].path) == 22) by {
        reveal_strlit("block_top_padding");
    }
    assert(ocr_place(fields[23].path) == 23) by {
        reveal_strlit("block_bottom_padding");
    }
    assert(ocr_place(fields[24].path) == 24) by {
        reveal_strlit("max_block_height");
    }
    assert(ocr_place(fields[25].path) == 25) by {
        reveal_strlit("same_line_y_tolerance");
    }
    assert(ocr_place(fields[26].path) == 26) by {
        reveal_strlit("marker_dedupe_x");
    }
    assert(ocr_place(fields[27].path) == 27) by {
        reveal_strlit("marker_dedupe_y");
    }
    assert(ocr_place(fields[28].path) == 28) by {
        reveal_strlit("next_marker_min_gap");
    }
    assert(ocr_place(fields[29].path) == 29) by {
        reveal_strlit("right_padding");
    }
    assert(ocr_place(fields[30].path) == 30) by {
        reveal_strlit("batch_recognize");
    }
    assert forall|i: int, j: int| 0 <= i < j < fields.len() implies (#[trigger] fields[i]).path
        != (#[trigger] fields[j]).path by {
        assert(ocr_place(fields[i].path) == i);
        assert(ocr_place(fields[j].path) == j);
    }
}

/// The fields of the section `templates`.
#[verifier::opaque]
pub open spec fn templates_fields() -> Seq<FieldView> {
    seq![
        idle_field(
            "blue_marker"@,
            "蓝色聊天标志"@,
            KindView::Path,
            "蓝色聊天标志模板，通常是自己/普通聊天行标志"@,
        ),
        idle_field(
            "yellow_marker"@,
            "黄色聊天标志"@,
            KindView::Path,
            "黄色聊天标志模板，通常是系统/高亮聊天行标志"@,
        ),
        idle_field(
            "pink_marker"@,
            "粉色聊天标志"@,
            KindView::Path,
            "粉色聊天标志模板，用于识别好友私聊命令"@,
        ),
        idle_field(
            "friend"@,
            "好友按钮模板"@,
            KindView::Path,
            "一级聊天界面的好友按钮模板"@,
        ),
        idle_field(
            "secondary_back"@,
            "二级返回按钮模板"@,
            KindView::Path,
            "二级聊天界面左上角返回按钮模板，用于稳定判断二级界面"@,
        ),
        idle_field(
            "secondary_hall"@,
            "二级大厅模板"@,
            KindView::Path,
            "二级大厅/面板界面模板"@,
        ),
        idle_field(
            "invite_view_star"@,
            "查看千星按钮模板"@,
            KindView::Path,
            "邀请流程里的“查看千星”按钮模板"@,
        ),
        idle_field(
            "invite_goto_hall"@,
            "前往大厅按钮模板"@,
            KindView::Path,
            "邀请流程里的“前往其大厅”按钮模板"@,
        ),
        idle_field(
            "invite_enter_hall"@,
            "进入大厅按钮模板"@,
            KindView::Path,
            "邀请流程里的“进入大厅”按钮模板"@,
        ),
        idle_field(
            "friend_panel"@,
            "好友界面模板"@,
            KindView::Path,
            "好友界面模板，用于 UID 拉黑/屏蔽流程"@,
        ),
        idle_field(
            "friend_search_panel"@,
            "好友搜索模板"@,
            KindView::Path,
            "好友搜索界面模板"@,
        ),
        idle_field(
            "friend_more_settings"@,
            "更多设置模板"@,
            KindView::Path,
            "好友搜索结果里的更多设置按钮模板"@,
        ),
        idle_field(
            "friend_block_chat"@,
            "屏蔽聊天模板"@,
            KindView::Path,
            "更多设置里的屏蔽聊天按钮模板"@,
        ),
        idle_field(
            "friend_blacklist"@,
            "拉黑按钮模板"@,
            KindView::Path,
            "更多设置里的拉黑按钮模板"@,
        ),
        idle_field(
            "friend_confirm"@,
            "确认按钮模板"@,
            KindView::Path,
            "拉黑/屏蔽弹窗里的确认按钮模板"@,
        ),
        idle_field(
            "marker_threshold"@,
            "匹配阈值"@,
            float_kind(0, 10),
            "UI/聊天标志模板匹配阈值，越高越严格"@,
        ),
    ]
}

/// The fields of the section `templates`.
pub fn templates_section() -> (r: Vec<ConfigFieldSchema>)
    ensures
        field_views(r@) == templates_fields(),
{
    let fields = vec![
        ConfigFieldSchema::db_idle_reload(
            "blue_marker",
            "蓝色聊天标志",
            FieldKind::Path,
            "蓝色聊天标志模板，通常是自己/普通聊天行标志",
        ),
        ConfigFieldSchema::db_idle_reload(
            "yellow_marker",
            "黄色聊天标志",
            FieldKind::Path,
            "黄色聊天标志模板，通常是系统/高亮聊天行标志",
        ),
        ConfigFieldSchema::db_idle_reload(
            "pink_marker",
            "粉色聊天标志",
            FieldKind::Path,
            "粉色聊天标志模板，用于识别好友私聊命令",
        ),
        ConfigFieldSchema::db_idle_reload(
            "friend",
            "好友按钮模板",
            FieldKind::Path,
            "一级聊天界面的好友按钮模板",
        ),
        ConfigFieldSchema::db_idle_reload(
            "secondary_back",
            "二级返回按钮模板",
            FieldKind::Path,
            "二级聊天界面左上角返回按钮模板，用于稳定判断二级界面",
        ),
        ConfigFieldSchema::db_idle_reload(
            "secondary_hall",
            "二级大厅模板",
            FieldKind::Path,
            "二级大厅/面板界面模板",
        ),
        ConfigFieldSchema::db_idle_reload(
            "invite_view_star",
            "查看千星按钮模板",
            FieldKind::Path,
            "邀请流程里的“查看千星”按钮模板",
        ),
        ConfigFieldSchema::db_idle_reload(
            "invite_goto_hall",
            "前往大厅按钮模板",
            FieldKind::Path,
            "邀请流程里的“前往其大厅”按钮模板",
        ),
        ConfigFieldSchema::db_idle_reload(
            "invite_enter_hall",
            "进入大厅按钮模板",
            FieldKind::Path,
            "邀请流程里的“进入大厅”按钮模板",
        ),
        ConfigFieldSchema::db_idle_reload(
            "friend_panel",
            "好友界面模板",
            FieldKind::Path,
            "好友界面模板，用于 UID 拉黑/屏蔽流程",
        ),
        ConfigFieldSchema::db_idle_reload(
            "friend_search_panel",
            "好友搜索模板",
            FieldKind::Path,
            "好友搜索界面模板",
        ),
        ConfigFieldSchema::db_idle_reload(
            "friend_more_settings",
            "更多设置模板",
            FieldKind::Path,
            "好友搜索结果里的更多设置按钮模板",
        ),
        ConfigFieldSchema::db_idle_reload(
            "friend_block_chat",
            "屏蔽聊天模板",
            FieldKind::Path,
            "更多设置里的屏蔽聊天按钮模板",
        ),
        ConfigFieldSchema::db_idle_reload(
            "friend_blacklist",
            "拉黑按钮模板",
            FieldKind::Path,
            "更多设置里的拉黑按钮模板",
        ),
        ConfigFieldSchema::db_idle_reload(
            "friend_confirm",
            "确认按钮模板",
            FieldKind::Path,
            "拉黑/屏蔽弹窗里的确认按钮模板",
        ),
        ConfigFieldSchema::db_idle_reload(
            "marker_threshold",
            "匹配阈值",
            float_of(0, 10),
            "UI/聊天标志模板匹配阈值，越高越严格",
        ),
    ];
    proof {
        reveal(templates_fields);
        assert(field_views(fields@) =~= templates_fields());
    }
    fields
}

/// Which field of the section `templates` has a path.
spec fn templates_place(path: Seq<char>) -> int {
    if path.len() == 11 && path[0] == 'b' {
        0
    } else if path.len() == 13 {
        1
    } else if path.len() == 11 {
        2
    } else if path.len() == 6 {
        3
    } else if path.len() == 14 && path[10] == 'b' {
        4
    } else if path.len() == 14 && path[0] == 's' {
        5
    } else if path.len() == 16 && path[7] == 'v' {
        6
    } else if path.len() == 16 && path[0] == 'i' {
        7
    } else if path.len() == 17 && path[0] == 'i' {
        8
    } else if path.len() == 12 {
        9
    } else if path.len() == 19 {
        10
    } else if path.len() == 20 {
        11
    } else if path.len() == 17 {
        12
    } else if path.len() == 16 && path[0] == 'f' {
        13
    } else if path.len() == 14 {
        14
    } else {
        15
    }
}

/// The fields of the section `templates` are declared soundly, each path once.
pub proof fn lemma_templates_fields()
    ensures
        declared_soundly(templates_fields()),
        distinct_paths(templates_fields()),
        no_secrets(templates_fields()),
        templates_fields().len() == 16,
{
    reveal(templates_fields);
    let fields = templates_fields();
    assert(templates_place(fields[0].path) == 0) by {
        reveal_strlit("blue_marker");
    }
    assert(templates_place(fields[1].path) == 1) by {
        reveal_strlit("yellow_marker");
    }
    assert(templates_place(fields[2].path) == 2) by {
        reveal_strlit("pink_marker");
    }
    assert(templates_place(fields[3].path) == 3) by {
        reveal_strlit("friend");
    }
    assert(templates_place(fields[4].path) == 4) by {
        reveal_strlit("secondary_back");
    }
    assert(templates_place(fields[5].path) == 5) by {
        reveal_strlit("secondary_hall");
    }
    assert(templates_place(fields[6].path) == 6) by {
        reveal_strlit("invite_view_star");
    }
    assert(templates_place(fields[7].path) == 7) by {
        reveal_strlit("invite_goto_hall");
    }
    assert(templates_place(fields[8].path) == 8) by {
        reveal_strlit("invite_enter_hall");
    }
    assert(templates_place(fields[9].path) == 9) by {
        reveal_strlit("friend_panel");
    }
    assert(templates_place(fields[10].path) == 10) by {
        reveal_strlit("friend_search_panel");
    }
    assert(templates_place(fields[11].path) == 11) by {
        reveal_strlit("friend_more_settings");
    }
    assert(templates_place(fields[12].path) == 12) by {
        reveal_strlit("friend_block_chat");
    }
    assert(templates_place(fields[13].path) == 13) by {
        reveal_strlit("friend_blacklist");
    }
    assert(templates_place(fields[14].path) == 14) by {
        reveal_strlit("friend_confirm");
    }
    assert(templates_place(fields[15].path) == 15) by {
        reveal_strlit("marker_threshold");
    }
    assert forall|i: int, j: int| 0 <= i < j < fields.len() implies (#[trigger] fields[i]).path
        != (#[trigger] fields[j]).path by {
        assert(templates_place(fields[i].path) == i);
        assert(templates_place(fields[j].path) == j);
    }
}

/// The fields of the section `output`.
#[verifier::opaque]
pub open spec fn output_fields() -> Seq<FieldView> {
    seq![
        live_field(
            "send_enabled"@,
            "发送回复开关"@,
            KindView::Bool,
            "是否真的向游戏内发送回复；false 时只写日志；保存后立即生效"@,
        ),
        idle_field(
            "focus_point"@,
            "安全点击点"@,
            KindView::Point,
            "保留给手动调试工具使用的聊天面板安全点击点；自动流程返回一级只使用 ESC"@,
        ),
        idle_field(
            "chat_click_2"@,
            "聊天输入框点击点"@,
            KindView::Point,
            "打开聊天输入后的输入框位置"@,
        ),
    ]
}

/// The fields of the section `output`.
pub fn output_section() -> (r: Vec<ConfigFieldSchema>)
    ensures
        field_views(r@) == output_fields(),
{
    let fields = vec![
        ConfigFieldSchema::db_live(
            "send_enabled",
            "发送回复开关",
            FieldKind::Bool,
            "是否真的向游戏内发送回复；false 时只写日志；保存后立即生效",
        ),
        ConfigFieldSchema::db_idle_reload(
            "focus_point",
            "安全点击点",
            FieldKind::Point,
            "保留给手动调试工具使用的聊天面板安全点击点；自动流程返回一级只使用 ESC",
        ),
        ConfigFieldSchema::db_idle_reload(
            "chat_click_2",
            "聊天输入框点击点",
            FieldKind::Point,
            "打开聊天输入后的输入框位置",
        ),
    ];
    proof {
        reveal(output_fields);
        assert(field_views(fields@) =~= output_fields());
    }
    fields
}

/// Which field of the section `output` has a path.
spec fn output_place(path: Seq<char>) -> int {
    if path.len() == 12 && path[0] == 's' {
        0
    } else if path.len() == 11 {
        1
    } else {
        2
    }
}

/// The fields of the section `output` are declared soundly, each path once.
pub proof fn lemma_output_fields()
    ensures
        declared_soundly(output_fields()),
        distinct_paths(output_fields()),
        no_secrets(output_fields()),
        output_fields().len() == 3,
{
    reveal(output_fields);
    let fields = output_fields();
    assert(output_place(fields[0].path) == 0) by {
        reveal_strlit("send_enabled");
    }
    assert(output_place(fields[1].path) == 1) by {
        reveal_strlit("focus_point");
    }
    assert(output_place(fields[2].path) == 2) by {
        reveal_strlit("chat_click_2");
    }
    assert forall|i: int, j: int| 0 <= i < j < fields.len() implies (#[trigger] fields[i]).path
        != (#[trigger] fields[j]).path by {
        assert(output_place(fields[i].path) == i);
        assert(output_place(fields[j].path) == j);
    }
}
} // verus!
