//! What the fields of a configuration are: their paths, names and kinds, where
//! they come from, and when a change of them takes effect.
use vstd::prelude::*;
use crate::text::owned;

pub mod catalog;
pub mod flows;
pub mod games;
pub mod music;
pub mod runtime;
pub mod screen;
pub mod timing;

verus! {

// ---------------------------------------------------------------------------
// Fields
// ---------------------------------------------------------------------------
/// Where a field comes from.
#[derive(Clone, Copy, Debug, PartialEq, Eq, Structural)]
pub enum ConfigSource {
    /// Kept in the database, where it can be edited.
    Db,
    /// Given when the program starts, and only shown.
    Bootstrap,
}

/// When a change of a field takes effect.
#[derive(Clone, Copy, Debug, PartialEq, Eq, Structural)]
pub enum Effect {
    /// At once.
    Live,
    /// Once nothing runs and the program is loaded again.
    IdleReload,
    /// Once nothing runs and nothing plays, and the program is loaded again.
    PlaybackIdleReload,
    /// Once the program is started again by hand.
    Restart,
}

impl Effect {
    /// The name of the effect in JSON.
    pub fn name(self) -> (r: &'static str)
        ensures
            r@ == match self {
                Effect::Live => "live"@,
                Effect::IdleReload => "idleReload"@,
                Effect::PlaybackIdleReload => "playbackIdleReload"@,
                Effect::Restart => "restart"@,
            },
    {
        match self {
            Effect::Live => "live",
            Effect::IdleReload => "idleReload",
            Effect::PlaybackIdleReload => "playbackIdleReload",
            Effect::Restart => "restart",
        }
    }
}

/// The kind of a field, which says how it is edited.
#[derive(Clone, Debug)]
pub enum FieldKind {
    Bool,
    Int { min: i64, max: i64 },
    /// A decimal number; the bounds are in tenths.
    Float { min_tenths: i64, max_tenths: i64 },
    String,
    /// The path of a file or a directory.
    Path,
    /// One of several values, each with its name.
    Enum(Vec<(String, String)>),
    StringArray,
    /// An object of any shape.
    Object,
    Rect,
    Point,
    /// A secret, which is shown masked.
    Secret,
}

/// The kind of a field, as plain values.
#[verifier::ext_equal]
pub enum KindView {
    Bool,
    Int { min: int, max: int },
    Float { min_tenths: int, max_tenths: int },
    String,
    Path,
    Enum(Seq<(Seq<char>, Seq<char>)>),
    StringArray,
    Object,
    Rect,
    Point,
    Secret,
}

impl View for FieldKind {
    type V = KindView;

    open spec fn view(&self) -> KindView {
        match *self {
            FieldKind::Bool => KindView::Bool,
            FieldKind::Int { min, max } => KindView::Int { min: min as int, max: max as int },
            FieldKind::Float { min_tenths, max_tenths } => KindView::Float {
                min_tenths: min_tenths as int,
                max_tenths: max_tenths as int,
            },
            FieldKind::String => KindView::String,
            FieldKind::Path => KindView::Path,
            FieldKind::Enum(choices) => KindView::Enum(choice_views(choices@)),
            FieldKind::StringArray => KindView::StringArray,
            FieldKind::Object => KindView::Object,
            FieldKind::Rect => KindView::Rect,
            FieldKind::Point => KindView::Point,
            FieldKind::Secret => KindView::Secret,
        }
    }
}

/// The values of a choice and their names.
pub open spec fn choice_views(choices: Seq<(String, String)>) -> Seq<(Seq<char>, Seq<char>)> {
    Seq::new(choices.len(), |i: int| (choices[i].0@, choices[i].1@))
}

/// What a field of the configuration is.
#[derive(Clone, Debug)]
pub struct ConfigFieldSchema {
    /// The dotted path.
    pub path: String,
    pub label: String,
    pub kind: FieldKind,
    pub effect: Effect,
    pub source: ConfigSource,
    pub hint: String,
    /// Whether the value may be null.
    pub nullable: bool,
    /// Whether what holds the field may be null.
    pub optional_parent: bool,
}

/// What a field of the configuration is, as plain values.
#[verifier::ext_equal]
pub struct FieldView {
    pub path: Seq<char>,
    pub label: Seq<char>,
    pub kind: KindView,
    pub effect: Effect,
    pub source: ConfigSource,
    pub hint: Seq<char>,
    pub nullable: bool,
    pub optional_parent: bool,
}

impl View for ConfigFieldSchema {
    type V = FieldView;

    open spec fn view(&self) -> FieldView {
        FieldView {
            path: self.path@,
            label: self.label@,
            kind: self.kind@,
            effect: self.effect,
            source: self.source,
            hint: self.hint@,
            nullable: self.nullable,
            optional_parent: self.optional_parent,
        }
    }
}

/// The views of fields.
pub open spec fn field_views(fields: Seq<ConfigFieldSchema>) -> Seq<FieldView> {
    Seq::new(fields.len(), |i: int| fields[i]@)
}

/// The longest time that a field can hold, in milliseconds: a day.
pub const MAX_TIMEOUT_MS: i64 = 86_400_000;

/// The greatest number of confirmations that a field can hold.
pub const MAX_STABLE_COUNT: i64 = 1024;

/// A field of the database, of a given effect.
pub open spec fn db_field(
    effect: Effect,
    path: Seq<char>,
    label: Seq<char>,
    kind: KindView,
    hint: Seq<char>,
) -> FieldView {
    FieldView {
        path,
        label,
        kind,
        effect,
        source: ConfigSource::Db,
        hint,
        nullable: false,
        optional_parent: false,
    }
}

/// A field that takes effect at once.
pub open spec fn live_field(
    path: Seq<char>,
    label: Seq<char>,
    kind: KindView,
    hint: Seq<char>,
) -> FieldView {
    db_field(Effect::Live, path, label, kind, hint)
}

/// A field that takes effect once nothing runs.
pub open spec fn idle_field(
    path: Seq<char>,
    label: Seq<char>,
    kind: KindView,
    hint: Seq<char>,
) -> FieldView {
    db_field(Effect::IdleReload, path, label, kind, hint)
}

/// A field that takes effect once nothing plays.
pub open spec fn playback_idle_field(
    path: Seq<char>,
    label: Seq<char>,
    kind: KindView,
    hint: Seq<char>,
) -> FieldView {
    db_field(Effect::PlaybackIdleReload, path, label, kind, hint)
}

/// A field that is given when the program starts.
pub open spec fn bootstrap_field(
    path: Seq<char>,
    label: Seq<char>,
    kind: KindView,
    hint: Seq<char>,
) -> FieldView {
    FieldView {
        path,
        label,
        kind,
        effect: Effect::Restart,
        source: ConfigSource::Bootstrap,
        hint,
        nullable: false,
        optional_parent: false,
    }
}

impl FieldView {
    /// The field, with a value that may be null.
    pub open spec fn nullable(self) -> FieldView {
        FieldView { nullable: true, ..self }
    }

    /// The field, in something that may be null.
    pub open spec fn optional_parent(self) -> FieldView {
        FieldView { optional_parent: true, ..self }
    }
}

/// An integer between bounds.
pub open spec fn int_kind(min: int, max: int) -> KindView {
    KindView::Int { min, max }
}

/// A decimal number between bounds in tenths.
pub open spec fn float_kind(min_tenths: int, max_tenths: int) -> KindView {
    KindView::Float { min_tenths, max_tenths }
}

impl ConfigFieldSchema {
    fn of_db(effect: Effect, path: &str, label: &str, kind: FieldKind, hint: &str) -> (r: Self)
        ensures
            r@ == db_field(effect, path@, label@, kind@, hint@),
    {
        ConfigFieldSchema {
            path: owned(path),
            label: owned(label),
            kind,
            effect,
            source: ConfigSource::Db,
            hint: owned(hint),
            nullable: false,
            optional_parent: false,
        }
    }

    /// A field that takes effect once nothing runs.
    pub fn db_idle_reload(path: &str, label: &str, kind: FieldKind, hint: &str) -> (r: Self)
        ensures
            r@ == idle_field(path@, label@, kind@, hint@),
    {
        Self::of_db(Effect::IdleReload, path, label, kind, hint)
    }

    /// A field that takes effect once nothing plays.
    pub fn db_playback_idle_reload(path: &str, label: &str, kind: FieldKind, hint: &str) -> (r:
        Self)
        ensures
            r@ == playback_idle_field(path@, label@, kind@, hint@),
    {
        Self::of_db(Effect::PlaybackIdleReload, path, label, kind, hint)
    }

    /// A field that takes effect at once.
    pub fn db_live(path: &str, label: &str, kind: FieldKind, hint: &str) -> (r: Self)
        ensures
            r@ == live_field(path@, label@, kind@, hint@),
    {
        Self::of_db(Effect::Live, path, label, kind, hint)
    }

    /// A field that is given when the program starts.
    pub fn bootstrap_restart(path: &str, label: &str, kind: FieldKind, hint: &str) -> (r: Self)
        ensures
            r@ == bootstrap_field(path@, label@, kind@, hint@),
    {
        ConfigFieldSchema {
            path: owned(path),
            label: owned(label),
            kind,
            effect: Effect::Restart,
            source: ConfigSource::Bootstrap,
            hint: owned(hint),
            nullable: false,
            optional_parent: false,
        }
    }

    /// The field, with a value that may be null.
    pub fn nullable(self) -> (r: Self)
        ensures
            r@ == self@.nullable(),
    {
        let mut field = self;
        field.nullable = true;
        field
    }

    /// The field, in something that may be null.
    pub fn optional_parent(self) -> (r: Self)
        ensures
            r@ == self@.optional_parent(),
    {
        let mut field = self;
        field.optional_parent = true;
        field
    }
}

/// An integer between bounds.
pub fn int_of(min: i64, max: i64) -> (r: FieldKind)
    ensures
        r@ == int_kind(min as int, max as int),
{
    FieldKind::Int { min, max }
}

/// A decimal number between bounds in tenths.
pub fn float_of(min_tenths: i64, max_tenths: i64) -> (r: FieldKind)
    ensures
        r@ == float_kind(min_tenths as int, max_tenths as int),
{
    FieldKind::Float { min_tenths, max_tenths }
}

/// One of several values, each with its name.
pub fn enum_of(choices: &Vec<(&'static str, &'static str)>) -> (r: FieldKind)
    ensures
        r@ == KindView::Enum(
            Seq::new(choices@.len(), |i: int| (choices@[i].0@, choices@[i].1@)),
        ),
{
    let mut owned_choices: Vec<(String, String)> = Vec::new();
    let mut i: usize = 0;
    while i < choices.len()
        invariant
            i <= choices@.len(),
            owned_choices@.len() == i,
            forall|k: int|
                0 <= k < i ==> (#[trigger] owned_choices@[k]).0@ == choices@[k].0@
                    && owned_choices@[k].1@ == choices@[k].1@,
        decreases choices@.len() - i,
    {
        owned_choices.push((owned(choices[i].0), owned(choices[i].1)));
        i = i + 1;
    }
    proof {
        assert(choice_views(owned_choices@) =~= Seq::new(
            choices@.len(),
            |i: int| (choices@[i].0@, choices@[i].1@),
        ));
    }
    FieldKind::Enum(owned_choices)
}

// ---------------------------------------------------------------------------
// What holds of the declared fields
// ---------------------------------------------------------------------------
/// Whether fields of the database never need a start by hand, and those given
/// at the start always do.
pub open spec fn declared_soundly(fields: Seq<FieldView>) -> bool {
    forall|i: int|
        0 <= i < fields.len() ==> ((#[trigger] fields[i]).source == ConfigSource::Bootstrap
            <==> fields[i].effect == Effect::Restart)
}

/// Whether no two fields have the same path.
pub open spec fn distinct_paths(fields: Seq<FieldView>) -> bool {
    forall|i: int, j: int|
        0 <= i < j < fields.len() ==> (#[trigger] fields[i]).path != (#[trigger] fields[j]).path
}

/// Whether no field is a secret.
pub open spec fn no_secrets(fields: Seq<FieldView>) -> bool {
    forall|i: int| 0 <= i < fields.len() ==> (#[trigger] fields[i]).kind != KindView::Secret
}

/// Whether the field at one place is a secret, and no other.
pub open spec fn one_secret(fields: Seq<FieldView>, at: int) -> bool {
    forall|i: int|
        0 <= i < fields.len() ==> ((#[trigger] fields[i]).kind == KindView::Secret <==> i == at)
}

/// A field of the database takes effect as its kind of declaration says and may not be
/// null; one that is given at the start needs a start by hand.
pub proof fn law_declarations(
    path: Seq<char>,
    label: Seq<char>,
    kind: KindView,
    hint: Seq<char>,
)
    ensures
        live_field(path, label, kind, hint).effect == Effect::Live,
        idle_field(path, label, kind, hint).effect == Effect::IdleReload,
        playback_idle_field(path, label, kind, hint).effect == Effect::PlaybackIdleReload,
        bootstrap_field(path, label, kind, hint).effect == Effect::Restart,
        live_field(path, label, kind, hint).source == ConfigSource::Db,
        idle_field(path, label, kind, hint).source == ConfigSource::Db,
        playback_idle_field(path, label, kind, hint).source == ConfigSource::Db,
        bootstrap_field(path, label, kind, hint).source == ConfigSource::Bootstrap,
        ({
            let field = live_field(path, label, kind, hint);
            &&& field.path == path
            &&& field.label == label
            &&& field.kind == kind
            &&& field.hint == hint
            &&& !field.nullable
            &&& !field.optional_parent
            &&& field.nullable().nullable
            &&& !field.nullable().optional_parent
            &&& field.optional_parent().optional_parent
            &&& !field.optional_parent().nullable
            &&& field.nullable().path == path
        }),
        ({
            let field = bootstrap_field(path, label, kind, hint);
            field.path == path && field.label == label && field.kind == kind && field.hint == hint
                && !field.nullable && !field.optional_parent
        }),
{
}

} // verus!
