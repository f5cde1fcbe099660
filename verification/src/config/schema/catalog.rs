//! The sections of a configuration, in order, and what is found in them.
use vstd::prelude::*;
use crate::config::schema::screen::window_fields;
use crate::config::schema::screen::window_section;
use crate::config::schema::screen::screen_fields;
use crate::config::schema::screen::screen_section;
use crate::config::schema::screen::stability_fields;
use crate::config::schema::screen::stability_section;
use crate::config::schema::timing::timing_fields;
use crate::config::schema::timing::timing_section;
use crate::config::schema::screen::ocr_fields;
use crate::config::schema::screen::ocr_section;
use crate::config::schema::screen::templates_fields;
use crate::config::schema::screen::templates_section;
use crate::config::schema::screen::output_fields;
use crate::config::schema::screen::output_section;
use crate::config::schema::flows::moderation_fields;
use crate::config::schema::flows::moderation_section;
use crate::config::schema::music::playback_fields;
use crate::config::schema::music::playback_section;
use crate::config::schema::runtime::http_fields;
use crate::config::schema::runtime::http_section;
use crate::config::schema::runtime::logging_fields;
use crate::config::schema::runtime::logging_section;
use crate::config::schema::runtime::tui_fields;
use crate::config::schema::runtime::tui_section;
use crate::config::schema::runtime::state_fields;
use crate::config::schema::runtime::state_section;
use crate::config::schema::music::queue_fields;
use crate::config::schema::music::queue_section;
use crate::config::schema::music::song_dedup_fields;
use crate::config::schema::music::song_dedup_section;
use crate::config::schema::games::idiom_chain_fields;
use crate::config::schema::games::idiom_chain_section;
use crate::config::schema::games::landlord_fields;
use crate::config::schema::games::landlord_section;
use crate::config::schema::games::undercover_fields;
use crate::config::schema::games::undercover_section;
use crate::config::schema::games::turtle_soup_fields;
use crate::config::schema::games::turtle_soup_section;
use crate::config::schema::music::ai_fields;
use crate::config::schema::music::ai_section;
use crate::config::schema::music::song_review_fields;
use crate::config::schema::music::song_review_section;
use crate::config::schema::music::matching_fields;
use crate::config::schema::music::matching_section;
use crate::config::schema::runtime::hotkeys_fields;
use crate::config::schema::runtime::hotkeys_section;
use crate::config::schema::flows::startup_fields;
use crate::config::schema::flows::startup_section;
use crate::config::schema::flows::invite_fields;
use crate::config::schema::flows::invite_section;
use crate::config::schema::runtime::friend_delivery_fields;
use crate::config::schema::runtime::friend_delivery_section;
use crate::config::schema::flows::custom_workflows_fields;
use crate::config::schema::flows::custom_workflows_section;
use crate::config::schema::screen::lemma_window_fields;
use crate::config::schema::screen::lemma_screen_fields;
use crate::config::schema::screen::lemma_stability_fields;
use crate::config::schema::timing::lemma_timing_fields;
use crate::config::schema::screen::lemma_ocr_fields;
use crate::config::schema::screen::lemma_templates_fields;
use crate::config::schema::screen::lemma_output_fields;
use crate::config::schema::flows::lemma_moderation_fields;
use crate::config::schema::music::lemma_playback_fields;
use crate::config::schema::runtime::lemma_http_fields;
use crate::config::schema::runtime::lemma_logging_fields;
use crate::config::schema::runtime::lemma_tui_fields;
use crate::config::schema::runtime::lemma_state_fields;
use crate::config::schema::music::lemma_queue_fields;
use crate::config::schema::music::lemma_song_dedup_fields;
use crate::config::schema::games::lemma_idiom_chain_fields;
use crate::config::schema::games::lemma_landlord_fields;
use crate::config::schema::games::lemma_undercover_fields;
use crate::config::schema::games::lemma_turtle_soup_fields;
use crate::config::schema::music::lemma_ai_fields;
use crate::config::schema::music::lemma_song_review_fields;
use crate::config::schema::music::lemma_matching_fields;
use crate::config::schema::runtime::lemma_hotkeys_fields;
use crate::config::schema::flows::lemma_startup_fields;
use crate::config::schema::flows::lemma_invite_fields;
use crate::config::schema::runtime::lemma_friend_delivery_fields;
use crate::config::schema::flows::lemma_custom_workflows_fields;
use crate::config::schema::declared_soundly;
use crate::config::schema::distinct_paths;
use crate::config::schema::field_views;
use crate::config::schema::no_secrets;
use crate::config::schema::one_secret;
use crate::config::schema::ConfigFieldSchema;
use crate::config::schema::ConfigSource;
use crate::config::schema::Effect;
use crate::config::schema::FieldKind;
use crate::config::schema::FieldView;
use crate::config::schema::KindView;
use crate::config::secrets::lemma_secret_keys;
use crate::config::secrets::secret_paths;
use crate::scan::lemma_split_join;
use crate::scan::lemma_split_whole;
use crate::scan::split;
use crate::text::cat3;
use crate::text::owned;
use crate::text::str_equal;
use crate::text::to_chars;

verus! {

/// A section of the configuration.
#[derive(Clone, Debug)]
pub struct ConfigSectionSchema {
    pub name: String,
    pub label: String,
    /// The place of the section among the others.
    pub order: usize,
    pub fields: Vec<ConfigFieldSchema>,
}

/// A section of the configuration, as plain values.
#[verifier::ext_equal]
pub struct SectionView {
    pub name: Seq<char>,
    pub label: Seq<char>,
    pub order: int,
    pub fields: Seq<FieldView>,
}

impl View for ConfigSectionSchema {
    type V = SectionView;

    open spec fn view(&self) -> SectionView {
        SectionView {
            name: self.name@,
            label: self.label@,
            order: self.order as int,
            fields: field_views(self.fields@),
        }
    }
}

/// The views of sections.
pub open spec fn section_views(sections: Seq<ConfigSectionSchema>) -> Seq<SectionView> {
    Seq::new(sections.len(), |i: int| sections[i]@)
}

/// A field with its section before its path.
pub open spec fn in_section(section: Seq<char>, field: FieldView) -> FieldView {
    FieldView { path: section + "."@ + field.path, ..field }
}

/// Fields with their section before their paths.
pub open spec fn prefixed(section: Seq<char>, fields: Seq<FieldView>) -> Seq<FieldView> {
    Seq::new(fields.len(), |i: int| in_section(section, fields[i]))
}

/// A section of given fields.
pub open spec fn section_of(
    name: Seq<char>,
    label: Seq<char>,
    order: int,
    fields: Seq<FieldView>,
) -> SectionView {
    SectionView { name, label, order, fields: prefixed(name, fields) }
}

/// The sections of the configuration.
pub open spec fn sections() -> Seq<SectionView> {
    seq![
        section_of("window"@, "窗口"@, 1, window_fields()),
        section_of("screen"@, "屏幕区域"@, 2, screen_fields()),
        section_of("stability"@, "稳定性"@, 3, stability_fields()),
        section_of("timing"@, "时序"@, 4, timing_fields()),
        section_of("ocr"@, "OCR"@, 5, ocr_fields()),
        section_of("templates"@, "模板图片"@, 6, templates_fields()),
        section_of("output"@, "输出"@, 7, output_fields()),
        section_of("moderation"@, "管理（拉黑/屏蔽）"@, 8, moderation_fields()),
        section_of("playback"@, "播放器"@, 9, playback_fields()),
        section_of("http"@, "Web/API 面板"@, 10, http_fields()),
        section_of("logging"@, "日志"@, 11, logging_fields()),
        section_of("tui"@, "终端 TUI"@, 12, tui_fields()),
        section_of("state"@, "状态文件"@, 13, state_fields()),
        section_of("queue"@, "点歌队列"@, 14, queue_fields()),
        section_of("song_dedup"@, "同歌去重"@, 15, song_dedup_fields()),
        section_of("idiom_chain"@, "成语接龙"@, 16, idiom_chain_fields()),
        section_of("landlord"@, "斗地主"@, 17, landlord_fields()),
        section_of("undercover"@, "谁是卧底"@, 18, undercover_fields()),
        section_of("turtle_soup"@, "海龟汤"@, 19, turtle_soup_fields()),
        section_of("ai"@, "点歌 AI"@, 20, ai_fields()),
        section_of("song_review"@, "歌曲审核"@, 21, song_review_fields()),
        section_of("matching"@, "歌名匹配"@, 22, matching_fields()),
        section_of("hotkeys"@, "全局热键"@, 23, hotkeys_fields()),
        section_of("startup"@, "启动流程"@, 24, startup_fields()),
        section_of("invite"@, "邀请流程"@, 25, invite_fields()),
        section_of("friend_delivery"@, "好友投递"@, 26, friend_delivery_fields()),
        section_of("custom_workflows"@, "自定义流程"@, 27, custom_workflows_fields()),
    ]
}

/// Puts a section before the paths of fields.
pub fn with_section_prefix(section: &str, fields: Vec<ConfigFieldSchema>) -> (r: Vec<
    ConfigFieldSchema,
>)
    ensures
        field_views(r@) == prefixed(section@, field_views(fields@)),
{
    let mut out = fields;
    let mut i: usize = 0;
    while i < out.len()
        invariant
            i <= out@.len(),
            out@.len() == fields@.len(),
            forall|k: int|
                0 <= k < i ==> (#[trigger] out@[k])@ == in_section(section@, fields@[k]@),
            forall|k: int| i <= k < out@.len() ==> out@[k] == fields@[k],
        decreases out@.len() - i,
    {
        let path = cat3(section, ".", out[i].path.as_str());
        out[i].path = path;
        assert(out@[i as int]@ =~= in_section(section@, fields@[i as int]@));
        i = i + 1;
    }
    assert(field_views(out@) =~= prefixed(section@, field_views(fields@)));
    out
}

fn make_section(
    name: &str,
    label: &str,
    order: usize,
    fields: Vec<ConfigFieldSchema>,
) -> (r: ConfigSectionSchema)
    ensures
        r@ == section_of(name@, label@, order as int, field_views(fields@)),
{
    ConfigSectionSchema {
        name: owned(name),
        label: owned(label),
        order,
        fields: with_section_prefix(name, fields),
    }
}

/// The sections of the configuration.
pub fn config_sections() -> (r: Vec<ConfigSectionSchema>)
    ensures
        section_views(r@) == sections(),
{
    let all = vec![
        make_section("window", "窗口", 1, window_section()),
        make_section("screen", "屏幕区域", 2, screen_section()),
        make_section("stability", "稳定性", 3, stability_section()),
        make_section("timing", "时序", 4, timing_section()),
        make_section("ocr", "OCR", 5, ocr_section()),
        make_section("templates", "模板图片", 6, templates_section()),
        make_section("output", "输出", 7, output_section()),
        make_section("moderation", "管理（拉黑/屏蔽）", 8, moderation_section()),
        make_section("playback", "播放器", 9, playback_section()),
        make_section("http", "Web/API 面板", 10, http_section()),
        make_section("logging", "日志", 11, logging_section()),
        make_section("tui", "终端 TUI", 12, tui_section()),
        make_section("state", "状态文件", 13, state_section()),
        make_section("queue", "点歌队列", 14, queue_section()),
        make_section("song_dedup", "同歌去重", 15, song_dedup_section()),
        make_section("idiom_chain", "成语接龙", 16, idiom_chain_section()),
        make_section("landlord", "斗地主", 17, landlord_section()),
        make_section("undercover", "谁是卧底", 18, undercover_section()),
        make_section("turtle_soup", "海龟汤", 19, turtle_soup_section()),
        make_section("ai", "点歌 AI", 20, ai_section()),
        make_section("song_review", "歌曲审核", 21, song_review_section()),
        make_section("matching", "歌名匹配", 22, matching_section()),
        make_section("hotkeys", "全局热键", 23, hotkeys_section()),
        make_section("startup", "启动流程", 24, startup_section()),
        make_section("invite", "邀请流程", 25, invite_section()),
        make_section("friend_delivery", "好友投递", 26, friend_delivery_section()),
        make_section("custom_workflows", "自定义流程", 27, custom_workflows_section()),
    ];
    assert(section_views(all@) =~= sections());
    all
}

/// The first of some sections that has a name.
pub open spec fn named_section(all: Seq<SectionView>, name: Seq<char>) -> Option<SectionView>
    decreases all.len(),
{
    if all.len() == 0 {
        None
    } else if all[0].name == name {
        Some(all[0])
    } else {
        named_section(all.drop_first(), name)
    }
}

/// Where a section has a name, one of that name is found.
pub proof fn lemma_named_section(all: Seq<SectionView>, name: Seq<char>, k: int)
    requires
        0 <= k < all.len(),
        all[k].name == name,
    ensures
        named_section(all, name) matches Some(section) && section.name == name,
    decreases all.len(),
{
    if all[0].name != name {
        assert(all.drop_first()[k - 1] == all[k]);
        lemma_named_section(all.drop_first(), name, k - 1);
    }
}

/// The section of a name.
pub fn section_schema(name: &str) -> (r: Option<ConfigSectionSchema>)
    ensures
        match r {
            Some(section) => named_section(sections(), name@) == Some(section@),
            None => named_section(sections(), name@) is None,
        },
{
    let mut all = config_sections();
    let mut i: usize = 0;
    let ghost views = sections();
    assert(views.skip(0) =~= views);
    while i < all.len()
        invariant
            i <= all@.len(),
            views == sections(),
            section_views(all@) == views,
            named_section(views, name@) == named_section(views.skip(i as int), name@),
        decreases all@.len() - i,
    {
        assert(views.skip(i as int)[0] == all@[i as int]@);
        if str_equal(all[i].name.as_str(), name) {
            let found = all.remove(i);
            return Some(found);
        }
        assert(views.skip(i as int).drop_first() =~= views.skip(i + 1));
        i = i + 1;
    }
    None
}

// ---------------------------------------------------------------------------
// Effects
// ---------------------------------------------------------------------------
/// The fields of the first `n` sections.
pub open spec fn fields_of(n: nat) -> Seq<FieldView>
    decreases n,
{
    if n == 0 {
        Seq::empty()
    } else {
        fields_of((n - 1) as nat) + sections()[n - 1].fields
    }
}

/// All fields of the configuration.
pub open spec fn all_fields() -> Seq<FieldView> {
    fields_of(sections().len())
}

/// Whether a path is that of a field, or lies inside the object that it is.
pub open spec fn covers(field: FieldView, path: Seq<char>) -> bool {
    ||| field.path == path
    ||| {
        &&& field.kind is Object || field.kind is Rect || field.kind is Point
        &&& field.path.len() < path.len()
        &&& path.take(field.path.len() as int) == field.path
        &&& path[field.path.len() as int] == '.'
    }
}

/// The field with the longest path that covers a path; the last one of those.
pub open spec fn deepest(fields: Seq<FieldView>, path: Seq<char>) -> Option<FieldView>
    decreases fields.len(),
{
    if fields.len() == 0 {
        None
    } else {
        let earlier = deepest(fields.drop_last(), path);
        let field = fields.last();
        if covers(field, path) && (earlier is None || field.path.len() >= earlier->0.path.len()) {
            Some(field)
        } else {
            earlier
        }
    }
}

/// When a change at a path takes effect.
pub open spec fn effect_of(path: Seq<char>) -> Option<Effect> {
    match deepest(all_fields(), path) {
        Some(field) => Some(field.effect),
        None => None,
    }
}

fn is_covering(field: &ConfigFieldSchema, path: &str) -> (r: bool)
    ensures
        r == covers(field@, path@),
{
    if str_equal(field.path.as_str(), path) {
        return true;
    }
    let holds = match &field.kind {
        FieldKind::Object => true,
        FieldKind::Rect => true,
        FieldKind::Point => true,
        _ => false,
    };
    if !holds {
        return false;
    }
    let inner = to_chars(path);
    let outer = to_chars(field.path.as_str());
    if outer.len() >= inner.len() {
        return false;
    }
    let mut i: usize = 0;
    while i < outer.len()
        invariant
            i <= outer@.len() < inner@.len(),
            inner@ == path@,
            outer@ == field@.path,
            outer@ != inner@,
            forall|k: int| 0 <= k < i ==> inner@[k] == outer@[k],
        decreases outer@.len() - i,
    {
        if inner[i] != outer[i] {
            assert(path@.take(outer@.len() as int)[i as int] != field@.path[i as int]);
            return false;
        }
        i = i + 1;
    }
    assert(inner@.take(outer@.len() as int) =~= outer@);
    inner[outer.len()] == '.'
}

/// When a change at a path takes effect.
pub fn config_effect_for_path(path: &str) -> (r: Option<Effect>)
    ensures
        r == effect_of(path@),
{
    let all = config_sections();
    let mut best: Option<(usize, Effect)> = None;
    let mut i: usize = 0;
    while i < all.len()
        invariant
            i <= all@.len(),
            section_views(all@) == sections(),
            match deepest(fields_of(i as nat), path@) {
                Some(field) => best == Some((field.path.len() as usize, field.effect))
                    && field.path.len() <= usize::MAX,
                None => best is None,
            },
        decreases all@.len() - i,
    {
        let ghost earlier = fields_of(i as nat);
        let fields = &all[i].fields;
        let ghost own = sections()[i as int].fields;
        assert(own == all@[i as int]@.fields);
        assert(earlier + own.take(0) =~= earlier);
        let mut j: usize = 0;
        while j < fields.len()
            invariant
                j <= fields@.len(),
                own == field_views(fields@),
                match deepest(earlier + own.take(j as int), path@) {
                    Some(field) => best == Some((field.path.len() as usize, field.effect))
                        && field.path.len() <= usize::MAX,
                    None => best is None,
                },
            decreases fields@.len() - j,
        {
            let ghost more = earlier + own.take(j + 1);
            assert(more.drop_last() =~= earlier + own.take(j as int));
            assert(more.last() == fields@[j as int]@);
            let length: usize = to_chars(fields[j].path.as_str()).len();
            if is_covering(&fields[j], path) {
                match best {
                    Some((longest, _)) => {
                        if length >= longest {
                            best = Some((length, fields[j].effect));
                        }
                    },
                    None => {
                        best = Some((length, fields[j].effect));
                    },
                }
            }
            j = j + 1;
        }
        assert(own.take(own.len() as int) =~= own);
        i = i + 1;
    }
    match best {
        Some((_, effect)) => Some(effect),
        None => None,
    }
}

// ---------------------------------------------------------------------------
// Laws
// ---------------------------------------------------------------------------
/// Which section has a name.
spec fn section_place(name: Seq<char>) -> int {
    if name.len() == 6 && name[0] == 'w' {
        0
    } else if name.len() == 6 && name[0] == 's' {
        1
    } else if name.len() == 9 && name[0] == 's' {
        2
    } else if name.len() == 6 && name[0] == 't' {
        3
    } else if name.len() == 3 && name[0] == 'o' {
        4
    } else if name.len() == 9 {
        5
    } else if name.len() == 6 && name[0] == 'o' {
        6
    } else if name.len() == 10 && name[0] == 'm' {
        7
    } else if name.len() == 8 && name[0] == 'p' {
        8
    } else if name.len() == 4 {
        9
    } else if name.len() == 7 && name[0] == 'l' {
        10
    } else if name.len() == 3 {
        11
    } else if name.len() == 5 && name[0] == 's' {
        12
    } else if name.len() == 5 {
        13
    } else if name.len() == 10 && name[0] == 's' {
        14
    } else if name.len() == 11 && name[0] == 'i' {
        15
    } else if name.len() == 8 && name[0] == 'l' {
        16
    } else if name.len() == 10 {
        17
    } else if name.len() == 11 && name[0] == 't' {
        18
    } else if name.len() == 2 {
        19
    } else if name.len() == 11 {
        20
    } else if name.len() == 8 {
        21
    } else if name.len() == 7 && name[0] == 'h' {
        22
    } else if name.len() == 7 {
        23
    } else if name.len() == 6 {
        24
    } else if name.len() == 15 {
        25
    } else {
        26
    }
}

/// Whether the name of the section at a place is known by it and has no dot.
spec fn name_known(k: int) -> bool {
    section_place(sections()[k].name) == k && !sections()[k].name.contains('.')
}

proof fn lemma_names(k: int)
    requires
        0 <= k < sections().len(),
    ensures
        name_known(k),
{
    if k == 0 {
        reveal_strlit("window");
    } else if k == 1 {
        reveal_strlit("screen");
    } else if k == 2 {
        reveal_strlit("stability");
    } else if k == 3 {
        reveal_strlit("timing");
    } else if k == 4 {
        reveal_strlit("ocr");
    } else if k == 5 {
        reveal_strlit("templates");
    } else if k == 6 {
        reveal_strlit("output");
    } else if k == 7 {
        reveal_strlit("moderation");
    } else if k == 8 {
        reveal_strlit("playback");
    } else if k == 9 {
        reveal_strlit("http");
    } else if k == 10 {
        reveal_strlit("logging");
    } else if k == 11 {
        reveal_strlit("tui");
    } else if k == 12 {
        reveal_strlit("state");
    } else if k == 13 {
        reveal_strlit("queue");
    } else if k == 14 {
        reveal_strlit("song_dedup");
    } else if k == 15 {
        reveal_strlit("idiom_chain");
    } else if k == 16 {
        reveal_strlit("landlord");
    } else if k == 17 {
        reveal_strlit("undercover");
    } else if k == 18 {
        reveal_strlit("turtle_soup");
    } else if k == 19 {
        reveal_strlit("ai");
    } else if k == 20 {
        reveal_strlit("song_review");
    } else if k == 21 {
        reveal_strlit("matching");
    } else if k == 22 {
        reveal_strlit("hotkeys");
    } else if k == 23 {
        reveal_strlit("startup");
    } else if k == 24 {
        reveal_strlit("invite");
    } else if k == 25 {
        reveal_strlit("friend_delivery");
    } else if k == 26 {
        reveal_strlit("custom_workflows");
    }
}

/// A prefix keeps what holds of the fields.
proof fn lemma_prefixed(section: Seq<char>, fields: Seq<FieldView>)
    requires
        declared_soundly(fields),
        distinct_paths(fields),
    ensures
        declared_soundly(prefixed(section, fields)),
        distinct_paths(prefixed(section, fields)),
        no_secrets(fields) ==> no_secrets(prefixed(section, fields)),
        forall|at: int| one_secret(fields, at) ==> #[trigger] one_secret(prefixed(section, fields), at),
{
    let after = prefixed(section, fields);
    let head = section + "."@;
    assert forall|i: int, j: int| 0 <= i < j < after.len() implies (#[trigger] after[i]).path != (
    #[trigger] after[j]).path by {
        if after[i].path == after[j].path {
            let a = fields[i].path;
            let b = fields[j].path;
            assert((head + a).skip(head.len() as int) =~= a);
            assert((head + b).skip(head.len() as int) =~= b);
        }
    }
}

/// The fields of the section at a place are declared soundly, each path once.
proof fn lemma_section(k: int)
    requires
        0 <= k < sections().len(),
    ensures
        declared_soundly(sections()[k].fields),
        distinct_paths(sections()[k].fields),
        forall|i: int|
            0 <= i < sections()[k].fields.len() && (#[trigger] sections()[k].fields[i]).kind
                == KindView::Secret ==> secret_paths().contains(sections()[k].fields[i].path),
{
    lemma_secret_keys();
    if k == 0 {
        lemma_window_fields();
        lemma_prefixed("window"@, window_fields());
    } else if k == 1 {
        lemma_screen_fields();
        lemma_prefixed("screen"@, screen_fields());
    } else if k == 2 {
        lemma_stability_fields();
        lemma_prefixed("stability"@, stability_fields());
    } else if k == 3 {
        lemma_timing_fields();
        lemma_prefixed("timing"@, timing_fields());
    } else if k == 4 {
        lemma_ocr_fields();
        lemma_prefixed("ocr"@, ocr_fields());
    } else if k == 5 {
        lemma_templates_fields();
        lemma_prefixed("templates"@, templates_fields());
    } else if k == 6 {
        lemma_output_fields();
        lemma_prefixed("output"@, output_fields());
    } else if k == 7 {
        lemma_moderation_fields();
        lemma_prefixed("moderation"@, moderation_fields());
    } else if k == 8 {
        lemma_playback_fields();
        lemma_prefixed("playback"@, playback_fields());
    } else if k == 9 {
        lemma_http_fields();
        lemma_prefixed("http"@, http_fields());
        let at = 3;
        reveal_strlit("http.access_token");
        reveal_strlit("http");
        reveal_strlit("access_token");
        reveal_strlit(".");
        assert("http"@ + "."@ + "access_token"@ =~= "http.access_token"@);
        assert(secret_paths()[0] == "http.access_token"@);
        assert(one_secret(prefixed("http"@, http_fields()), at));
    } else if k == 10 {
        lemma_logging_fields();
        lemma_prefixed("logging"@, logging_fields());
    } else if k == 11 {
        lemma_tui_fields();
        lemma_prefixed("tui"@, tui_fields());
    } else if k == 12 {
        lemma_state_fields();
        lemma_prefixed("state"@, state_fields());
    } else if k == 13 {
        lemma_queue_fields();
        lemma_prefixed("queue"@, queue_fields());
    } else if k == 14 {
        lemma_song_dedup_fields();
        lemma_prefixed("song_dedup"@, song_dedup_fields());
    } else if k == 15 {
        lemma_idiom_chain_fields();
        lemma_prefixed("idiom_chain"@, idiom_chain_fields());
    } else if k == 16 {
        lemma_landlord_fields();
        lemma_prefixed("landlord"@, landlord_fields());
    } else if k == 17 {
        lemma_undercover_fields();
        lemma_prefixed("undercover"@, undercover_fields());
    } else if k == 18 {
        lemma_turtle_soup_fields();
        lemma_prefixed("turtle_soup"@, turtle_soup_fields());
        let at = 15;
        reveal_strlit("turtle_soup.ai.api_key");
        reveal_strlit("turtle_soup");
        reveal_strlit("ai.api_key");
        reveal_strlit(".");
        assert("turtle_soup"@ + "."@ + "ai.api_key"@ =~= "turtle_soup.ai.api_key"@);
        assert(secret_paths()[3] == "turtle_soup.ai.api_key"@);
        assert(one_secret(prefixed("turtle_soup"@, turtle_soup_fields()), at));
    } else if k == 19 {
        lemma_ai_fields();
        lemma_prefixed("ai"@, ai_fields());
        let at = 1;
        reveal_strlit("ai.api_key");
        reveal_strlit("ai");
        reveal_strlit("api_key");
        reveal_strlit(".");
        assert("ai"@ + "."@ + "api_key"@ =~= "ai.api_key"@);
        assert(secret_paths()[1] == "ai.api_key"@);
        assert(one_secret(prefixed("ai"@, ai_fields()), at));
    } else if k == 20 {
        lemma_song_review_fields();
        lemma_prefixed("song_review"@, song_review_fields());
        let at = 9;
        reveal_strlit("song_review.provider.api_key");
        reveal_strlit("song_review");
        reveal_strlit("provider.api_key");
        reveal_strlit(".");
        assert("song_review"@ + "."@ + "provider.api_key"@ =~= "song_review.provider.api_key"@);
        assert(secret_paths()[2] == "song_review.provider.api_key"@);
        assert(one_secret(prefixed("song_review"@, song_review_fields()), at));
    } else if k == 21 {
        lemma_matching_fields();
        lemma_prefixed("matching"@, matching_fields());
    } else if k == 22 {
        lemma_hotkeys_fields();
        lemma_prefixed("hotkeys"@, hotkeys_fields());
    } else if k == 23 {
        lemma_startup_fields();
        lemma_prefixed("startup"@, startup_fields());
    } else if k == 24 {
        lemma_invite_fields();
        lemma_prefixed("invite"@, invite_fields());
    } else if k == 25 {
        lemma_friend_delivery_fields();
        lemma_prefixed("friend_delivery"@, friend_delivery_fields());
    } else if k == 26 {
        lemma_custom_workflows_fields();
        lemma_prefixed("custom_workflows"@, custom_workflows_fields());
    }
}

/// The first part of the path of a field is the name of its section.
proof fn lemma_field_section(k: int, i: int)
    requires
        0 <= k < sections().len(),
        0 <= i < sections()[k].fields.len(),
    ensures
        split(sections()[k].fields[i].path, '.')[0] == sections()[k].name,
{
    reveal_strlit(".");
    let name = sections()[k].name;
    let field = sections()[k].fields[i];
    assert(exists|f: FieldView| field == in_section(name, f)) by {
        if k == 0 {
            assert(field == in_section(name, window_fields()[i]));
        } else if k == 1 {
            assert(field == in_section(name, screen_fields()[i]));
        } else if k == 2 {
            assert(field == in_section(name, stability_fields()[i]));
        } else if k == 3 {
            assert(field == in_section(name, timing_fields()[i]));
        } else if k == 4 {
            assert(field == in_section(name, ocr_fields()[i]));
        } else if k == 5 {
            assert(field == in_section(name, templates_fields()[i]));
        } else if k == 6 {
            assert(field == in_section(name, output_fields()[i]));
        } else if k == 7 {
            assert(field == in_section(name, moderation_fields()[i]));
        } else if k == 8 {
            assert(field == in_section(name, playback_fields()[i]));
        } else if k == 9 {
            assert(field == in_section(name, http_fields()[i]));
        } else if k == 10 {
            assert(field == in_section(name, logging_fields()[i]));
        } else if k == 11 {
            assert(field == in_section(name, tui_fields()[i]));
        } else if k == 12 {
            assert(field == in_section(name, state_fields()[i]));
        } else if k == 13 {
            assert(field == in_section(name, queue_fields()[i]));
        } else if k == 14 {
            assert(field == in_section(name, song_dedup_fields()[i]));
        } else if k == 15 {
            assert(field == in_section(name, idiom_chain_fields()[i]));
        } else if k == 16 {
            assert(field == in_section(name, landlord_fields()[i]));
        } else if k == 17 {
            assert(field == in_section(name, undercover_fields()[i]));
        } else if k == 18 {
            assert(field == in_section(name, turtle_soup_fields()[i]));
        } else if k == 19 {
            assert(field == in_section(name, ai_fields()[i]));
        } else if k == 20 {
            assert(field == in_section(name, song_review_fields()[i]));
        } else if k == 21 {
            assert(field == in_section(name, matching_fields()[i]));
        } else if k == 22 {
            assert(field == in_section(name, hotkeys_fields()[i]));
        } else if k == 23 {
            assert(field == in_section(name, startup_fields()[i]));
        } else if k == 24 {
            assert(field == in_section(name, invite_fields()[i]));
        } else if k == 25 {
            assert(field == in_section(name, friend_delivery_fields()[i]));
        } else if k == 26 {
            assert(field == in_section(name, custom_workflows_fields()[i]));
        }
    }
    let f = choose|f: FieldView| field == in_section(name, f);
    assert("."@ =~= seq!['.']);
    assert(field.path =~= name + seq!['.'] + f.path);
    lemma_names(k);
    lemma_split_join(name, f.path, '.');
    lemma_split_whole(name, '.');
}

/// Where a field of the first `n` sections comes from.
pub proof fn lemma_fields_of(n: nat, i: int) -> (r: (int, int))
    requires
        n <= sections().len(),
        0 <= i < fields_of(n).len(),
    ensures
        0 <= r.0 < n,
        0 <= r.1 < sections()[r.0].fields.len(),
        fields_of(n)[i] == sections()[r.0].fields[r.1],
    decreases n,
{
    let earlier = fields_of((n - 1) as nat);
    if i < earlier.len() {
        lemma_fields_of((n - 1) as nat, i)
    } else {
        (n - 1, i - earlier.len())
    }
}

proof fn lemma_fields_of_sound(n: nat)
    requires
        n <= sections().len(),
    ensures
        declared_soundly(fields_of(n)),
        distinct_paths(fields_of(n)),
        forall|i: int|
            0 <= i < fields_of(n).len() && (#[trigger] fields_of(n)[i]).kind == KindView::Secret
                ==> secret_paths().contains(fields_of(n)[i].path),
    decreases n,
{
    if n > 0 {
        let m = (n - 1) as nat;
        lemma_fields_of_sound(m);
        lemma_section(m as int);
        let earlier = fields_of(m);
        let own = sections()[m as int].fields;
        let all = fields_of(n);
        assert forall|i: int, j: int| 0 <= i < j < all.len() implies (#[trigger] all[i]).path != (
        #[trigger] all[j]).path by {
            if j < earlier.len() {
                assert(all[i] == earlier[i]);
                assert(all[j] == earlier[j]);
            } else if i >= earlier.len() {
                assert(all[i] == own[i - earlier.len()]);
                assert(all[j] == own[j - earlier.len()]);
            } else {
                let (k, a) = lemma_fields_of(m, i);
                lemma_field_section(k, a);
                lemma_field_section(m as int, j - earlier.len());
                lemma_names(k);
                lemma_names(m as int);
            }
        }
        assert forall|i: int| 0 <= i < all.len() implies ((#[trigger] all[i]).source
            == ConfigSource::Bootstrap <==> all[i].effect == Effect::Restart) by {
            if i < earlier.len() {
                assert(all[i] == earlier[i]);
            } else {
                assert(all[i] == own[i - earlier.len()]);
            }
        }
        assert forall|i: int|
            0 <= i < all.len() && (#[trigger] all[i]).kind
                == KindView::Secret implies secret_paths().contains(all[i].path) by {
            if i < earlier.len() {
                assert(all[i] == earlier[i]);
            } else {
                assert(all[i] == own[i - earlier.len()]);
            }
        }
    }
}

/// No two fields have the same path.
pub proof fn law_paths_unique()
    ensures
        distinct_paths(all_fields()),
{
    lemma_fields_of_sound(sections().len());
}

/// A field of the database never needs a start by hand; a field that is given at
/// the start always does.
pub proof fn law_effects_fit_sources()
    ensures
        declared_soundly(all_fields()),
{
    lemma_fields_of_sound(sections().len());
}

/// A change at the path of a field takes effect as the field says.
pub proof fn law_effect_of_field(i: int)
    requires
        0 <= i < all_fields().len(),
    ensures
        effect_of(all_fields()[i].path) == Some(all_fields()[i].effect),
{
    law_paths_unique();
    lemma_deepest(all_fields(), all_fields()[i].path, i);
}

proof fn lemma_deepest(fields: Seq<FieldView>, path: Seq<char>, at: int)
    requires
        distinct_paths(fields),
        0 <= at < fields.len(),
        fields[at].path == path,
    ensures
        deepest(fields, path) == Some(fields[at]),
    decreases fields.len(),
{
    let fewer = fields.drop_last();
    assert forall|i: int, j: int| 0 <= i < j < fewer.len() implies (#[trigger] fewer[i]).path != (
    #[trigger] fewer[j]).path by {
        assert(fewer[i] == fields[i]);
        assert(fewer[j] == fields[j]);
    }
    if at == fields.len() - 1 {
        lemma_deepest_length(fewer, path);
    } else {
        assert(fewer[at] == fields[at]);
        lemma_deepest(fewer, path, at);
        assert(fields.last().path != path);
    }
}

/// No field that covers a path has a longer one.
proof fn lemma_deepest_length(fields: Seq<FieldView>, path: Seq<char>)
    ensures
        deepest(fields, path) is Some ==> deepest(fields, path)->0.path.len() <= path.len(),
    decreases fields.len(),
{
    if fields.len() > 0 {
        lemma_deepest_length(fields.drop_last(), path);
    }
}

/// Where the fields of a section start among all fields.
pub proof fn lemma_fields_include(n: nat, k: int, i: int) -> (at: int)
    requires
        0 <= k < n <= sections().len(),
        0 <= i < sections()[k].fields.len(),
    ensures
        0 <= at < fields_of(n).len(),
        fields_of(n)[at] == sections()[k].fields[i],
    decreases n,
{
    let m = (n - 1) as nat;
    if k == m {
        fields_of(m).len() as int + i
    } else {
        lemma_fields_include(m, k, i)
    }
}

/// The field of each secret.
proof fn lemma_secret_field(s: int) -> (at: int)
    requires
        0 <= s < secret_paths().len(),
    ensures
        0 <= at < all_fields().len(),
        all_fields()[at].path == secret_paths()[s],
        all_fields()[at].kind == KindView::Secret,
{
    if s == 0 {
        lemma_http_fields();
        reveal_strlit("http.access_token");
        reveal_strlit("http");
        reveal_strlit("access_token");
        reveal_strlit(".");
        assert("http"@ + "."@ + "access_token"@ =~= "http.access_token"@);
        assert(http_fields()[3].kind == KindView::Secret);
        assert(sections()[9].fields[3] == in_section("http"@, http_fields()[3]));
        lemma_fields_include(sections().len(), 9, 3)
    } else if s == 1 {
        lemma_ai_fields();
        reveal_strlit("ai.api_key");
        reveal_strlit("ai");
        reveal_strlit("api_key");
        reveal_strlit(".");
        assert("ai"@ + "."@ + "api_key"@ =~= "ai.api_key"@);
        assert(ai_fields()[1].kind == KindView::Secret);
        assert(sections()[19].fields[1] == in_section("ai"@, ai_fields()[1]));
        lemma_fields_include(sections().len(), 19, 1)
    } else if s == 2 {
        lemma_song_review_fields();
        reveal_strlit("song_review.provider.api_key");
        reveal_strlit("song_review");
        reveal_strlit("provider.api_key");
        reveal_strlit(".");
        assert("song_review"@ + "."@ + "provider.api_key"@ =~= "song_review.provider.api_key"@);
        assert(song_review_fields()[9].kind == KindView::Secret);
        assert(sections()[20].fields[9] == in_section("song_review"@, song_review_fields()[9]));
        lemma_fields_include(sections().len(), 20, 9)
    } else {
        lemma_turtle_soup_fields();
        reveal_strlit("turtle_soup.ai.api_key");
        reveal_strlit("turtle_soup");
        reveal_strlit("ai.api_key");
        reveal_strlit(".");
        assert("turtle_soup"@ + "."@ + "ai.api_key"@ =~= "turtle_soup.ai.api_key"@);
        assert(turtle_soup_fields()[15].kind == KindView::Secret);
        assert(sections()[18].fields[15] == in_section("turtle_soup"@, turtle_soup_fields()[15]));
        lemma_fields_include(sections().len(), 18, 15)
    }
}

/// The secret fields are those with the paths of the secrets.
pub proof fn law_secret_fields(i: int)
    requires
        0 <= i < all_fields().len(),
    ensures
        all_fields()[i].kind == KindView::Secret <==> secret_paths().contains(
            all_fields()[i].path,
        ),
{
    lemma_fields_of_sound(sections().len());
    if secret_paths().contains(all_fields()[i].path) {
        let s = choose|s: int|
            0 <= s < secret_paths().len() && secret_paths()[s] == all_fields()[i].path;
        let at = lemma_secret_field(s);
        if at < i {
            assert(all_fields()[at].path != all_fields()[i].path);
        } else if i < at {
            assert(all_fields()[i].path != all_fields()[at].path);
        }
    }
}

/// Each secret has a field.
pub proof fn law_secrets_declared(s: int)
    requires
        0 <= s < secret_paths().len(),
    ensures
        exists|at: int|
            0 <= at < all_fields().len() && (#[trigger] all_fields()[at]).path
                == secret_paths()[s] && all_fields()[at].kind == KindView::Secret,
{
    let at = lemma_secret_field(s);
    assert(all_fields()[at].path == secret_paths()[s]);
}

/// A field covers its own path; one that is an object, a region or a point also each path
/// inside it. A path that only begins with the same letters is not inside it.
pub proof fn law_what_a_field_covers(field: FieldView, rest: Seq<char>, c: char)
    ensures
        covers(field, field.path),
        field.kind is Object || field.kind is Rect || field.kind is Point <==> covers(
            field,
            field.path + (seq!['.'] + rest),
        ),
        c != '.' ==> !covers(field, field.path + (seq![c] + rest)),
{
    let inside = field.path + (seq!['.'] + rest);
    let beside = field.path + (seq![c] + rest);
    let n = field.path.len() as int;
    assert(inside.take(n) =~= field.path);
    assert(inside[n] == '.');
    assert(inside.len() > n);
    assert(beside[n] == c);
    assert(beside.len() > n);
}

/// The field that decides over a path covers it, and no field with a longer path does;
/// where none decides, none covers it.
pub proof fn law_deepest_field_decides(fields: Seq<FieldView>, path: Seq<char>, i: int)
    requires
        0 <= i < fields.len(),
    ensures
        deepest(fields, path) matches Some(field) ==> {
            &&& covers(field, path)
            &&& fields.contains(field)
            &&& covers(fields[i], path) ==> fields[i].path.len() <= field.path.len()
        },
        deepest(fields, path) is None ==> !covers(fields[i], path),
    decreases fields.len(),
{
    let fewer = fields.drop_last();
    if i < fewer.len() {
        law_deepest_field_decides(fewer, path, i);
        assert(fewer[i] == fields[i]);
    } else if fewer.len() > 0 {
        law_deepest_field_decides(fewer, path, 0);
    }
    match deepest(fields, path) {
        Some(field) => {
            if fewer.contains(field) {
                let k = choose|k: int| 0 <= k < fewer.len() && fewer[k] == field;
                assert(fields[k] == field);
            } else {
                assert(fields[fields.len() - 1] == fields.last());
            }
        },
        None => {},
    }
}

/// A change takes effect as the field says that decides over its path: a path inside a
/// field that is an object, where no other field lies, as that field does.
pub proof fn law_effect_inside_a_field(i: int, rest: Seq<char>)
    requires
        0 <= i < all_fields().len(),
        all_fields()[i].kind is Object || all_fields()[i].kind is Rect || all_fields()[i].kind
            is Point,
        forall|k: int|
            0 <= k < all_fields().len() && k != i ==> !covers(
                #[trigger] all_fields()[k],
                all_fields()[i].path + (seq!['.'] + rest),
            ),
    ensures
        effect_of(all_fields()[i].path + (seq!['.'] + rest)) == Some(all_fields()[i].effect),
{
    let path = all_fields()[i].path + (seq!['.'] + rest);
    law_what_a_field_covers(all_fields()[i], rest, 'x');
    law_deepest_field_decides(all_fields(), path, i);
    let field = deepest(all_fields(), path)->0;
    let k = choose|k: int| 0 <= k < all_fields().len() && all_fields()[k] == field;
    assert(covers(all_fields()[k], path));
}

/// A field of a section has the name of the section and a dot before its own path, and is
/// else as it was declared.
pub proof fn law_fields_of_a_section(section: Seq<char>, fields: Seq<FieldView>, i: int)
    requires
        0 <= i < fields.len(),
    ensures
        prefixed(section, fields).len() == fields.len(),
        prefixed(section, fields)[i].path == section + "."@ + fields[i].path,
        prefixed(section, fields)[i] == (FieldView {
            path: prefixed(section, fields)[i].path,
            ..fields[i]
        }),
{
}

} // verus!
