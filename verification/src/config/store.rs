//! Saving, showing and rolling back a configuration. The database is read and
//! written elsewhere; what is to be written is decided here.
use vstd::prelude::*;
use crate::config::app::AppConfig;
use crate::config::app::OutsideChecks;
use crate::config::errors::ConfigFieldError;
use crate::config::errors::ConfigFieldErrors;
use crate::config::errors::error_views;
use crate::config::errors::field_errors_from_chain;
use crate::config::errors::field_errors_from_message;
use crate::config::errors::{chain_error, field_error};
use crate::config::json::Json;
use crate::config::json::JsonNumber;
use crate::config::json::JsonView;
use crate::config::json::before;
use crate::config::json::copy_json;
use crate::config::json::entries_view;
use crate::config::json::insert;
use crate::config::json::keys_ascend;
use crate::config::json::law_put_then_lookup;
use crate::config::json::lookup;
use crate::config::json::ordered;
use crate::config::json::position;
use crate::config::json::put;
use crate::config::json::{lemma_lookup_index, lemma_object_view};
use crate::config::json::{lemma_put_at, lemma_put_ordered};
use crate::config::json_text::parsed;
use crate::config::json_text::read_json;
use crate::config::locations::ends_in;
use crate::config::locations::name_at_end;
use crate::config::paths::lemma_path_value_ordered;
use crate::config::paths::lemma_written_ordered;
use crate::config::paths::path_value;
use crate::config::paths::path_written;
use crate::config::paths::value_at;
use crate::config::pruning::law_prune;
use crate::config::pruning::lemma_pruned_lookup;
use crate::config::pruning::lemma_pruned_ordered;
use crate::config::pruning::prune_unknown_schema_fields;
use crate::config::pruning::pruned;
use crate::config::schema::catalog::named_section;
use crate::config::schema::catalog::sections;
use crate::config::secrets::above_secret;
use crate::config::secrets::apply_secret_clear_markers;
use crate::config::secrets::clear_marker;
use crate::config::secrets::force_retain_secret_fields;
use crate::config::secrets::law_mask_changes_only_secrets;
use crate::config::secrets::law_mask_hides_secrets;
use crate::config::secrets::law_other_sections_are_shown;
use crate::config::secrets::law_secrets_restored;
use crate::config::secrets::law_secrets_settle;
use crate::config::secrets::lemma_found_is_writable;
use crate::config::secrets::lemma_secret_keys;
use crate::config::secrets::mask_secrets;
use crate::config::secrets::masked;
use crate::config::secrets::parts_from;
use crate::config::secrets::passes_secret;
use crate::config::secrets::restored;
use crate::config::secrets::retain_secret_fields;
use crate::config::secrets::secret_paths;
use crate::config::secrets::settled;
use crate::config::secrets::text_of_path;
use crate::config::secrets::{apart_from_secrets, law_restoring_keeps_others};
use crate::config::secrets::{law_settling_keeps_others, SECRET_COUNT};
use crate::config::sections::changed;
use crate::config::sections::collect_changed_paths;
use crate::config::sections::fill_missing_defaults;
use crate::config::sections::filled;
use crate::config::sections::filled_entries;
use crate::config::sections::immutable_bootstrap_field_conflicts;
use crate::config::sections::immutable_errors;
use crate::config::sections::immutable_fields;
use crate::config::sections::{law_fill, law_fill_adds_what_is_missing};
use crate::config::sections::{law_fill_keeps_what_is_there, law_merge};
use crate::config::sections::lemma_filled_is_found;
use crate::config::sections::lemma_filled_ordered;
use crate::config::sections::merge_sections;
use crate::config::sections::merged_sections;
use crate::config::sections::section_field;
use crate::config::sections::stored_part;
use crate::config::settings::file_name_view;
use crate::scan::split;
use crate::text::cat3;
use crate::text::decimal;
use crate::text::format_u64;
use crate::text::owned;
use crate::text::string_views;

verus! {

/// How many earlier versions are kept.
pub const KEPT_REVISIONS: i64 = 50;

/// What came of a save.
#[derive(Debug)]
pub struct ConfigSaveOutcome {
    pub revision: u64,
    /// The dotted paths of what changed.
    pub changed_fields: Vec<String>,
}

/// An earlier version.
#[derive(Clone, Debug)]
pub struct ConfigRevisionInfo {
    pub revision: u64,
    pub created_at_ms: u64,
}

/// Why a save or a roll back failed.
#[derive(Debug)]
pub enum ConfigSaveError {
    /// Something else was saved meanwhile.
    Conflict,
    RevisionNotFound(u64),
    /// Fields are not valid.
    Fields(ConfigFieldErrors),
    Other(String),
}

impl ConfigSaveError {
    /// The text of the error.
    pub fn message(&self) -> (r: String)
        ensures
            match self {
                ConfigSaveError::Conflict => r@ == "配置已被其他修改，请刷新后重试"@,
                ConfigSaveError::RevisionNotFound(revision) => r@ == "目标版本 "@ + decimal(
                    *revision as nat,
                ) + " 不存在"@,
                ConfigSaveError::Fields(errors) => r@ == "配置校验失败，共 "@ + decimal(
                    errors.errors@.len(),
                ) + " 个字段错误:"@ + crate::config::errors::error_lines(
                    error_views(errors.errors@),
                ),
                ConfigSaveError::Other(text) => r@ == text@,
            },
    {
        match self {
            ConfigSaveError::Conflict => owned("配置已被其他修改，请刷新后重试"),
            ConfigSaveError::RevisionNotFound(revision) => cat3(
                "目标版本 ",
                format_u64(*revision).as_str(),
                " 不存在",
            ),
            ConfigSaveError::Fields(errors) => errors.message(),
            ConfigSaveError::Other(text) => owned(text.as_str()),
        }
    }
}

// ---------------------------------------------------------------------------
// Reading
// ---------------------------------------------------------------------------
/// A row of the table of sections: its name, and its value as far as its text
/// could be read.
#[derive(Debug)]
pub struct SectionRow {
    pub section: String,
    pub value: Result<Json, String>,
}

/// A row, as plain values.
pub open spec fn row_view(row: SectionRow) -> (Seq<char>, Result<JsonView, Seq<char>>) {
    (
        row.section@,
        match row.value {
            Ok(value) => Ok(value@),
            Err(reason) => Err(reason@),
        },
    )
}

/// Rows, as plain values.
pub open spec fn row_views(rows: Seq<SectionRow>) -> Seq<
    (Seq<char>, Result<JsonView, Seq<char>>),
> {
    Seq::new(rows.len(), |i: int| row_view(rows[i]))
}

/// What rows of names and texts say.
pub open spec fn rows_read(rows: Seq<(String, String)>) -> Seq<
    (Seq<char>, Result<JsonView, Seq<char>>),
> {
    Seq::new(rows.len(), |i: int| (rows[i].0@, parsed(rows[i].1@)))
}

/// The sections of the first `n` rows, or the first row that could not be read.
pub open spec fn sections_of(
    rows: Seq<(Seq<char>, Result<JsonView, Seq<char>>)>,
    n: int,
) -> Result<Seq<(Seq<char>, JsonView)>, Seq<char>>
    decreases n,
{
    if n <= 0 {
        Ok(Seq::empty())
    } else {
        match (sections_of(rows, n - 1), rows[n - 1].1) {
            (Ok(entries), Ok(value)) => Ok(put(entries, rows[n - 1].0, value)),
            (Ok(_), Err(_)) => Err("解析配置段 "@ + rows[n - 1].0 + " 失败"@),
            (Err(reason), _) => Err(reason),
        }
    }
}

/// Once a row cannot be read, the sections cannot be.
proof fn lemma_unread_stays(
    rows: Seq<(Seq<char>, Result<JsonView, Seq<char>>)>,
    i: int,
    n: int,
)
    requires
        i <= n,
        sections_of(rows, i) is Err,
    ensures
        sections_of(rows, n) == sections_of(rows, i),
    decreases n - i,
{
    if i < n {
        lemma_unread_stays(rows, i, n - 1);
    }
}

/// The sections of all rows. A name that stands twice has the later value.
pub fn gather_sections(rows: &Vec<SectionRow>) -> (r: Result<Vec<(String, Json)>, String>)
    requires
        forall|i: int|
            0 <= i < rows@.len() ==> ((#[trigger] rows@[i]).value matches Ok(value) ==> ordered(
                value@,
            )),
    ensures
        match r {
            Ok(entries) => {
                &&& sections_of(row_views(rows@), rows@.len() as int) == Ok::<
                    Seq<(Seq<char>, JsonView)>,
                    Seq<char>,
                >(entries_view(entries@))
                &&& ordered(JsonView::Object(entries_view(entries@)))
            },
            Err(reason) => sections_of(row_views(rows@), rows@.len() as int) == Err::<
                Seq<(Seq<char>, JsonView)>,
                Seq<char>,
            >(reason@),
        },
{
    let mut entries: Vec<(String, Json)> = Vec::new();
    let mut i: usize = 0;
    let ghost views = row_views(rows@);
    assert(entries_view(entries@) =~= Seq::empty());
    while i < rows.len()
        invariant
            i <= rows@.len(),
            views == row_views(rows@),
            forall|k: int|
                0 <= k < rows@.len() ==> ((#[trigger] rows@[k]).value matches Ok(value)
                    ==> ordered(value@)),
            sections_of(views, i as int) == Ok::<Seq<(Seq<char>, JsonView)>, Seq<char>>(
                entries_view(entries@),
            ),
            ordered(JsonView::Object(entries_view(entries@))),
        decreases rows@.len() - i,
    {
        assert(views[i as int] == row_view(rows@[i as int]));
        match &rows[i].value {
            Ok(value) => {
                let copy = copy_json(value);
                proof {
                    lemma_put_ordered(entries_view(entries@), rows@[i as int].section@, copy@);
                }
                insert(&mut entries, rows[i].section.as_str(), copy);
            },
            Err(_) => {
                proof {
                    lemma_unread_stays(views, i + 1, rows@.len() as int);
                }
                return Err(cat3("解析配置段 ", rows[i].section.as_str(), " 失败"));
            },
        }
        i = i + 1;
    }
    Ok(entries)
}

/// The sections of rows of the database, each a name and a JSON text.
pub fn read_all_sections(rows: &Vec<(String, String)>) -> (r: Result<
    Vec<(String, Json)>,
    String,
>)
    ensures
        match r {
            Ok(entries) => {
                &&& sections_of(rows_read(rows@), rows@.len() as int) == Ok::<
                    Seq<(Seq<char>, JsonView)>,
                    Seq<char>,
                >(entries_view(entries@))
                &&& ordered(JsonView::Object(entries_view(entries@)))
            },
            Err(reason) => sections_of(rows_read(rows@), rows@.len() as int) == Err::<
                Seq<(Seq<char>, JsonView)>,
                Seq<char>,
            >(reason@),
        },
{
    let mut read: Vec<SectionRow> = Vec::new();
    let mut i: usize = 0;
    while i < rows.len()
        invariant
            i <= rows@.len(),
            read@.len() == i,
            forall|k: int| 0 <= k < i ==> row_view(#[trigger] read@[k]) == rows_read(rows@)[k],
            forall|k: int|
                0 <= k < i ==> ((#[trigger] read@[k]).value matches Ok(value) ==> ordered(value@)),
        decreases rows@.len() - i,
    {
        let value = read_json(rows[i].1.as_str());
        read.push(SectionRow { section: owned(rows[i].0.as_str()), value });
        i = i + 1;
    }
    assert(row_views(read@) =~= rows_read(rows@));
    gather_sections(&read)
}

// ---------------------------------------------------------------------------
// Saving
// ---------------------------------------------------------------------------
/// What is to be saved, and what it is compared with.
#[derive(Debug)]
pub struct Candidate {
    /// The stored sections, in the form in which they would be saved.
    pub current: Vec<(String, Json)>,
    /// The sections to be saved.
    pub merged: Vec<(String, Json)>,
}

/// The sections to be saved before their secrets are settled.
pub open spec fn merge_of(
    stored: Seq<(Seq<char>, JsonView)>,
    submitted: Seq<(Seq<char>, JsonView)>,
) -> Seq<(Seq<char>, JsonView)> {
    merged_sections(pruned(stored), submitted)
}

/// The errors of fields that a submission changes and cannot change.
pub open spec fn refusals(
    stored: Seq<(Seq<char>, JsonView)>,
    submitted: Seq<(Seq<char>, JsonView)>,
) -> Seq<crate::config::errors::FieldErrorView> {
    immutable_errors(pruned(stored), merge_of(stored, submitted), immutable_fields().len())
}

/// The sections to be saved.
pub open spec fn candidate_of(
    stored: Seq<(Seq<char>, JsonView)>,
    submitted: Seq<(Seq<char>, JsonView)>,
) -> Seq<(Seq<char>, JsonView)> {
    settled(merge_of(stored, submitted), pruned(stored))
}

/// What is to be saved of a submission over the stored sections. Each submitted
/// section takes the place of the stored one as a whole.
pub fn prepare_candidate(
    stored: Vec<(String, Json)>,
    submitted: &Vec<(String, Json)>,
) -> (r: Result<Candidate, ConfigFieldErrors>)
    requires
        ordered(JsonView::Object(entries_view(stored@))),
        ordered(JsonView::Object(entries_view(submitted@))),
    ensures
        match r {
            Ok(candidate) => {
                &&& refusals(entries_view(stored@), entries_view(submitted@)).len() == 0
                &&& entries_view(candidate.current@) == merge_of(
                    entries_view(stored@),
                    Seq::empty(),
                )
                &&& entries_view(candidate.merged@) == candidate_of(
                    entries_view(stored@),
                    entries_view(submitted@),
                )
                &&& ordered(JsonView::Object(entries_view(candidate.current@)))
                &&& ordered(JsonView::Object(entries_view(candidate.merged@)))
            },
            Err(errors) => {
                &&& refusals(entries_view(stored@), entries_view(submitted@)).len() > 0
                &&& error_views(errors.errors@) == refusals(
                    entries_view(stored@),
                    entries_view(submitted@),
                )
            },
        },
{
    let mut current = stored;
    prune_unknown_schema_fields(&mut current);
    let nothing: Vec<(String, Json)> = Vec::new();
    proof {
        assert(entries_view(nothing@) =~= Seq::empty());
        assert(keys_ascend(entries_view(nothing@)));
    }
    let normalized = merge_sections(&current, &nothing);
    let mut merged = merge_sections(&current, submitted);
    let errors = immutable_bootstrap_field_conflicts(&current, &merged);
    if errors.len() > 0 {
        assert(error_views(errors@).len() > 0);
        return Err(ConfigFieldErrors { errors });
    }
    assert(error_views(errors@).len() == 0);
    let clearing = apply_secret_clear_markers(&mut merged);
    retain_secret_fields(&mut merged, &current, &clearing);
    Ok(Candidate { current: normalized, merged })
}

/// What is wrong with the configuration that sections were to make: why they make
/// none, or else the error of the one that they make. The path of its database
/// ends in `name`.
pub open spec fn config_error(
    config: Result<AppConfig, String>,
    outside: OutsideChecks,
    name: Option<Seq<char>>,
) -> Option<crate::config::errors::FieldErrorView> {
    match config {
        Err(message) => Some(field_error(message@)),
        Ok(config) => match config.error_chain(outside, name) {
            Some(chain) => Some(chain_error(chain, 0)),
            None => None,
        },
    }
}

/// Whether a name is the one that the path of the database ends in.
pub open spec fn names_database(
    config: Result<AppConfig, String>,
    name: Option<Seq<char>>,
) -> bool {
    config matches Ok(config) ==> ends_in(config.state.playback_state_path@, name)
}

/// Checks the configuration that sections make, where the path of its database ends
/// in a name.
pub fn check_config(
    config: &Result<AppConfig, String>,
    outside: &OutsideChecks,
    name: Option<&str>,
) -> (r: Result<(), ConfigFieldErrors>)
    ensures
        match (config_error(*config, *outside, file_name_view(name)), r) {
            (Some(error), Err(errors)) => error_views(errors.errors@) == seq![error],
            (None, Ok(())) => true,
            _ => false,
        },
{
    match config {
        Err(message) => Err(field_errors_from_message(message.as_str())),
        Ok(config) => match config.validate_chain(outside, name) {
            Err(messages) => Err(field_errors_from_chain(&messages)),
            Ok(()) => Ok(()),
        },
    }
}

/// All that is wrong with what is to be saved: fields that cannot be changed, or
/// else what is wrong with the configuration.
pub open spec fn candidate_errors(
    prepared: Result<Candidate, ConfigFieldErrors>,
    config: Result<AppConfig, String>,
    outside: OutsideChecks,
    name: Option<Seq<char>>,
) -> Seq<crate::config::errors::FieldErrorView> {
    match (prepared, config_error(config, outside, name)) {
        (Err(errors), _) => error_views(errors.errors@),
        (Ok(_), Some(error)) => seq![error],
        (Ok(_), None) => Seq::empty(),
    }
}

/// Whether this comes of sections that are to be saved: they are accepted where
/// they change no fixed field and make a configuration without an error, and
/// refused with their errors else.
pub open spec fn accepted(
    prepared: Result<Candidate, ConfigFieldErrors>,
    config: Result<AppConfig, String>,
    outside: OutsideChecks,
    name: Option<Seq<char>>,
    r: Result<Candidate, ConfigSaveError>,
) -> bool {
    match (prepared, config_error(config, outside, name), r) {
        (Ok(candidate), None, Ok(written)) => written == candidate,
        (Ok(_), Some(_), Err(ConfigSaveError::Fields(shown))) => error_views(shown.errors@)
            == candidate_errors(prepared, config, outside, name),
        (Err(_), _, Err(ConfigSaveError::Fields(shown))) => error_views(shown.errors@)
            == candidate_errors(prepared, config, outside, name),
        _ => false,
    }
}

/// Accepts sections that are to be saved, or refuses them, where the path of the
/// database ends in a name.
pub fn accept_named(
    prepared: Result<Candidate, ConfigFieldErrors>,
    config: &Result<AppConfig, String>,
    outside: &OutsideChecks,
    name: Option<&str>,
) -> (r: Result<Candidate, ConfigSaveError>)
    ensures
        accepted(prepared, *config, *outside, file_name_view(name), r),
{
    match prepared {
        Err(errors) => Err(ConfigSaveError::Fields(errors)),
        Ok(candidate) => match check_config(config, outside, name) {
            Err(errors) => Err(ConfigSaveError::Fields(errors)),
            Ok(()) => Ok(candidate),
        },
    }
}

/// Accepts sections that are to be saved, or refuses them. `config` is what they
/// make, or why they make nothing; of that nothing is asked where the sections are
/// refused already.
pub fn accept_candidate(
    prepared: Result<Candidate, ConfigFieldErrors>,
    config: &Result<AppConfig, String>,
    outside: &OutsideChecks,
) -> (r: Result<Candidate, ConfigSaveError>)
    ensures
        exists|name: Option<Seq<char>>| #[trigger]
            names_database(*config, name) && accepted(prepared, *config, *outside, name, r),
{
    let found = match config {
        Ok(config) => name_at_end(config.state.playback_state_path.as_str()),
        Err(_) => None,
    };
    let name: Option<&str> = match &found {
        Some(name) => Some(name.as_str()),
        None => None,
    };
    assert(names_database(*config, file_name_view(name)));
    accept_named(prepared, config, outside, name)
}

/// All that is wrong with what is to be saved. A save reports the same.
pub fn validate_candidate(
    prepared: Result<Candidate, ConfigFieldErrors>,
    config: &Result<AppConfig, String>,
    outside: &OutsideChecks,
) -> (r: Vec<ConfigFieldError>)
    ensures
        exists|name: Option<Seq<char>>| #[trigger]
            names_database(*config, name) && error_views(r@) == candidate_errors(
                prepared,
                *config,
                *outside,
                name,
            ),
{
    match accept_candidate(prepared, config, outside) {
        Err(ConfigSaveError::Fields(errors)) => errors.errors,
        _ => {
            let none: Vec<ConfigFieldError> = Vec::new();
            assert(error_views(none@) =~= Seq::empty());
            none
        },
    }
}

/// What a save writes besides the sections.
#[derive(Clone, Copy, Debug)]
pub struct CommitPlan {
    /// The number of the new version.
    pub revision: u64,
    /// The new version is stored under this number.
    pub stored_revision: i64,
    /// Versions up to this number are forgotten.
    pub forget_up_to: i64,
}

/// The number of a version as it is shown.
pub open spec fn shown_revision(stored: i64) -> int {
    if stored >= 0 {
        stored as int
    } else {
        stored + 0x1_0000_0000_0000_0000
    }
}

/// The number of a version as it is shown.
pub fn revision_of(stored: i64) -> (r: u64)
    ensures
        r == shown_revision(stored),
{
    if stored >= 0 {
        stored as u64
    } else {
        (stored as i128 + 0x1_0000_0000_0000_0000) as u64
    }
}

/// Whether there is a number for the version after a stored one, and for the last
/// one that it makes forgotten.
pub open spec fn has_next(stored: i64) -> bool {
    i64::MIN <= stored + 1 - KEPT_REVISIONS && stored < i64::MAX && stored != -1
}

/// What a save writes where the database has a version and the submission was
/// made from another.
pub fn plan_commit(stored_revision: i64, base_revision: u64) -> (r: Result<
    CommitPlan,
    ConfigSaveError,
>)
    requires
        shown_revision(stored_revision) == base_revision ==> has_next(stored_revision),
    ensures
        match r {
            Ok(plan) => {
                &&& shown_revision(stored_revision) == base_revision
                &&& plan.revision == base_revision + 1
                &&& plan.stored_revision == stored_revision + 1
                &&& plan.forget_up_to == stored_revision + 1 - KEPT_REVISIONS
            },
            Err(error) => shown_revision(stored_revision) != base_revision
                && error is Conflict,
        },
{
    let shown = revision_of(stored_revision);
    if shown != base_revision {
        return Err(ConfigSaveError::Conflict);
    }
    Ok(
        CommitPlan {
            revision: shown + 1,
            stored_revision: stored_revision + 1,
            forget_up_to: stored_revision + 1 - KEPT_REVISIONS,
        },
    )
}

/// Of two saves that were made from the same version, the second is refused; made
/// again from the version of the first, it is not.
pub proof fn law_stale_save_conflicts(stored: i64, base: u64)
    requires
        has_next(stored),
        shown_revision(stored) == base,
    ensures
        shown_revision((stored + 1) as i64) != base,
        shown_revision((stored + 1) as i64) == base + 1,
{
}

/// What came of a save that was made.
pub fn save_outcome(candidate: Candidate, plan: CommitPlan) -> (r: ConfigSaveOutcome)
    requires
        ordered(JsonView::Object(entries_view(candidate.current@))),
        ordered(JsonView::Object(entries_view(candidate.merged@))),
    ensures
        r.revision == plan.revision,
        string_views(r.changed_fields@) == changed(
            JsonView::Object(entries_view(candidate.current@)),
            JsonView::Object(entries_view(candidate.merged@)),
            Seq::empty(),
        ),
{
    let mut changed_fields: Vec<String> = Vec::new();
    proof {
        lemma_object_view(candidate.current);
        lemma_object_view(candidate.merged);
        reveal_strlit("");
        assert(""@ =~= Seq::empty());
        assert(string_views(changed_fields@) =~= Seq::empty());
    }
    let current = Json::Object(candidate.current);
    let merged = Json::Object(candidate.merged);
    collect_changed_paths(&current, &merged, "", &mut changed_fields);
    assert(string_views(changed_fields@) =~= changed(current@, merged@, Seq::empty()));
    ConfigSaveOutcome { revision: plan.revision, changed_fields }
}

// ---------------------------------------------------------------------------
// Rolling back
// ---------------------------------------------------------------------------
/// What is submitted to go back to an earlier version: its sections, without
/// what the schema does not know, with the secrets of now.
pub open spec fn rolled_back(
    snapshot: Seq<(Seq<char>, JsonView)>,
    stored: Seq<(Seq<char>, JsonView)>,
) -> Seq<(Seq<char>, JsonView)> {
    restored(pruned(snapshot), stored, SECRET_COUNT as nat)
}

/// The sections of an earlier version, where there is one, without what the schema
/// does not know.
pub fn snapshot_sections(target_revision: u64, snapshot: Option<Json>) -> (r: Result<
    Vec<(String, Json)>,
    ConfigSaveError,
>)
    requires
        snapshot matches Some(value) ==> ordered(value@),
    ensures
        match (snapshot, r) {
            (None, Err(ConfigSaveError::RevisionNotFound(revision))) => revision
                == target_revision,
            (Some(Json::Object(entries)), Ok(sections)) => {
                &&& entries_view(sections@) == pruned(entries_view(entries@))
                &&& ordered(JsonView::Object(entries_view(sections@)))
            },
            (Some(value), Err(ConfigSaveError::Other(text))) => value !is Object && text@
                == "目标版本快照必须是对象"@,
            _ => false,
        },
{
    match snapshot {
        None => Err(ConfigSaveError::RevisionNotFound(target_revision)),
        Some(Json::Object(entries)) => {
            proof {
                lemma_object_view(entries);
            }
            let mut sections = entries;
            prune_unknown_schema_fields(&mut sections);
            Ok(sections)
        },
        Some(_) => Err(ConfigSaveError::Other(owned("目标版本快照必须是对象"))),
    }
}

/// The sections of an earlier version, whose JSON text the database has or has
/// not, without what the schema does not know.
pub fn read_snapshot(target_revision: u64, snapshot: Option<String>) -> (r: Result<
    Vec<(String, Json)>,
    ConfigSaveError,
>)
    ensures
        match (snapshot, r) {
            (None, Err(ConfigSaveError::RevisionNotFound(revision))) => revision
                == target_revision,
            (Some(text), Ok(sections)) => {
                &&& parsed(text@) matches Ok(JsonView::Object(entries)) && entries_view(sections@)
                    == pruned(entries)
                &&& ordered(JsonView::Object(entries_view(sections@)))
            },
            (Some(text), Err(ConfigSaveError::Other(reason))) => match parsed(text@) {
                Err(words) => reason@ == words,
                Ok(value) => value !is Object && reason@ == "目标版本快照必须是对象"@,
            },
            _ => false,
        },
{
    match snapshot {
        None => snapshot_sections(target_revision, None),
        Some(text) => match read_json(text.as_str()) {
            Err(reason) => Err(ConfigSaveError::Other(reason)),
            Ok(value) => {
                proof {
                    if value is Object {
                        lemma_object_view(value->Object_0);
                    }
                }
                snapshot_sections(target_revision, Some(value))
            },
        },
    }
}

/// What is submitted to go back to an earlier version, whose sections hold nothing
/// that the schema does not know: these, with the secrets of now.
pub fn rollback_sections(sections: Vec<(String, Json)>, stored: &Vec<(String, Json)>) -> (r: Vec<
    (String, Json),
>)
    requires
        ordered(JsonView::Object(entries_view(sections@))),
        ordered(JsonView::Object(entries_view(stored@))),
    ensures
        entries_view(r@) == restored(
            entries_view(sections@),
            entries_view(stored@),
            SECRET_COUNT as nat,
        ),
        ordered(JsonView::Object(entries_view(r@))),
{
    let mut submitted = sections;
    force_retain_secret_fields(&mut submitted, stored);
    submitted
}

/// What is submitted to go back to an earlier version, whose JSON text the
/// database has or has not. Whether there is one, and whether it can be read, is
/// asked before anything of what is stored.
pub fn rollback_from_text(
    target_revision: u64,
    snapshot: Option<String>,
    stored: &Vec<(String, Json)>,
) -> (r: Result<Vec<(String, Json)>, ConfigSaveError>)
    requires
        ordered(JsonView::Object(entries_view(stored@))),
    ensures
        match (snapshot, r) {
            (None, Err(ConfigSaveError::RevisionNotFound(revision))) => revision
                == target_revision,
            (Some(text), Ok(sections)) => {
                &&& parsed(text@) matches Ok(JsonView::Object(entries)) && entries_view(sections@)
                    == rolled_back(entries, entries_view(stored@))
                &&& ordered(JsonView::Object(entries_view(sections@)))
            },
            (Some(text), Err(ConfigSaveError::Other(reason))) => match parsed(text@) {
                Err(words) => reason@ == words,
                Ok(value) => value !is Object && reason@ == "目标版本快照必须是对象"@,
            },
            _ => false,
        },
{
    match read_snapshot(target_revision, snapshot) {
        Err(error) => Err(error),
        Ok(sections) => Ok(rollback_sections(sections, stored)),
    }
}

/// The value that a path leads to in a section.
pub open spec fn section_value(section: Option<JsonView>, path: Seq<Seq<char>>) -> Option<
    JsonView,
> {
    if path.len() == 0 {
        section
    } else {
        match section {
            Some(JsonView::Object(entries)) => path_value(entries, path),
            _ => None,
        }
    }
}

/// A submitted section takes the place of the stored one as a whole, as far as it
/// is stored, and a section that is not submitted stays, at every path that parts
/// from those of the secrets.
pub proof fn law_save_replaces_sections(
    stored: Seq<(Seq<char>, JsonView)>,
    submitted: Seq<(Seq<char>, JsonView)>,
    path: Seq<Seq<char>>,
)
    requires
        path.len() > 0,
        apart_from_secrets(path),
        keys_ascend(submitted),
    ensures
        path_value(candidate_of(stored, submitted), path) == section_value(
            stored_part(
                path[0],
                match lookup(submitted, path[0]) {
                    Some(section) => Some(section),
                    None => lookup(pruned(stored), path[0]),
                },
            ),
            path.drop_first(),
        ),
{
    let merged = merge_of(stored, submitted);
    law_settling_keeps_others(merged, pruned(stored), path);
    law_merge(pruned(stored), submitted, path[0]);
}

/// A field that is fixed when the program starts stays as it is stored, whatever is
/// saved.
pub proof fn law_fixed_fields_stay(
    stored: Seq<(Seq<char>, JsonView)>,
    submitted: Seq<(Seq<char>, JsonView)>,
    k: int,
)
    requires
        0 <= k < immutable_fields().len(),
        refusals(stored, submitted).len() == 0,
    ensures
        section_field(
            candidate_of(stored, submitted),
            immutable_fields()[k].0,
            immutable_fields()[k].1,
        ) == section_field(pruned(stored), immutable_fields()[k].0, immutable_fields()[k].1),
{
    let (section, field) = immutable_fields()[k];
    let path = seq![section, field];
    let merged = merge_of(stored, submitted);
    reveal_with_fuel(immutable_errors, 4);
    assert(section_field(pruned(stored), section, field) == section_field(
        merged,
        section,
        field,
    ));
    assert(apart_from_secrets(path)) by {
        lemma_secret_keys();
        reveal_strlit("playback");
        reveal_strlit("startup");
        reveal_strlit("http");
        reveal_strlit("ai");
        reveal_strlit("song_review");
        reveal_strlit("turtle_soup");
        assert forall|s: int| 0 <= s < SECRET_COUNT implies parts_from(
            split(#[trigger] secret_paths()[s], '.'),
            path,
        ) by {
            let keys = split(secret_paths()[s], '.');
            assert("playback"@[0] == 'p' && "startup"@[0] == 's' && "startup"@[1] == 't');
            assert("http"@[0] == 'h' && "ai"@[0] == 'a' && "turtle_soup"@[0] == 't'
                && "song_review"@[1] == 'o');
            assert(keys[0] != path[0]);
            assert(keys.take(0) =~= path.take(0));
        }
    }
    law_settling_keeps_others(merged, pruned(stored), path);
    lemma_two_keys(merged, section, field);
    lemma_two_keys(candidate_of(stored, submitted), section, field);
}

/// A path of two keys leads to a field of a section.
proof fn lemma_two_keys(
    entries: Seq<(Seq<char>, JsonView)>,
    section: Seq<char>,
    field: Seq<char>,
)
    ensures
        path_value(entries, seq![section, field]) == section_field(entries, section, field),
{
    reveal_with_fuel(path_value, 2);
    assert(seq![section, field].drop_first() =~= seq![field]);
}

/// Putting secrets in their place removes no section.
proof fn lemma_restoring_keeps_sections(
    entries: Seq<(Seq<char>, JsonView)>,
    current: Seq<(Seq<char>, JsonView)>,
    n: nat,
    key: Seq<char>,
)
    requires
        n <= SECRET_COUNT,
        lookup(entries, key) is Some,
    ensures
        lookup(restored(entries, current, n), key) is Some,
    decreases n,
{
    if n > 0 {
        let earlier = restored(entries, current, (n - 1) as nat);
        let keys = split(secret_paths()[n - 1], '.');
        lemma_restoring_keeps_sections(entries, current, (n - 1) as nat, key);
        match value_at(current, secret_paths()[n - 1]) {
            Some(kept) => {
                if path_written(earlier, keys, kept) is Some {
                    let put_there = lookup(path_written(earlier, keys, kept)->0, keys[0]);
                    if keys.len() == 1 {
                        law_put_then_lookup(earlier, keys[0], kept, key);
                    } else {
                        let found = match lookup(earlier, keys[0]) {
                            Some(JsonView::Object(found)) => found,
                            _ => Seq::empty(),
                        };
                        let inner = path_written(found, keys.drop_first(), kept)->0;
                        law_put_then_lookup(earlier, keys[0], JsonView::Object(inner), key);
                    }
                }
            },
            None => {},
        }
    }
}

/// Putting secrets in their place keeps the keys in order.
proof fn lemma_restoring_ordered(
    entries: Seq<(Seq<char>, JsonView)>,
    current: Seq<(Seq<char>, JsonView)>,
    n: nat,
)
    requires
        n <= SECRET_COUNT,
        ordered(JsonView::Object(entries)),
        ordered(JsonView::Object(current)),
    ensures
        ordered(JsonView::Object(restored(entries, current, n))),
    decreases n,
{
    if n > 0 {
        let earlier = restored(entries, current, (n - 1) as nat);
        let keys = split(secret_paths()[n - 1], '.');
        lemma_restoring_ordered(entries, current, (n - 1) as nat);
        match value_at(current, secret_paths()[n - 1]) {
            Some(kept) => {
                lemma_path_value_ordered(current, keys);
                if path_written(earlier, keys, kept) is Some {
                    lemma_written_ordered(earlier, keys, kept);
                }
            },
            None => {},
        }
    }
}

/// After a roll back a section that the earlier version has is as it was then, as
/// far as it is stored and the schema knows it, at every path that parts from
/// those of the secrets.
pub proof fn law_rollback_restores(
    snapshot: Seq<(Seq<char>, JsonView)>,
    stored: Seq<(Seq<char>, JsonView)>,
    path: Seq<Seq<char>>,
)
    requires
        path.len() > 0,
        apart_from_secrets(path),
        ordered(JsonView::Object(snapshot)),
        ordered(JsonView::Object(stored)),
        lookup(snapshot, path[0]) is Some,
    ensures
        path_value(candidate_of(stored, rolled_back(snapshot, stored)), path) == section_value(
            stored_part(path[0], lookup(pruned(snapshot), path[0])),
            path.drop_first(),
        ),
{
    let earlier = pruned(snapshot);
    let submitted = rolled_back(snapshot, stored);
    let all = SECRET_COUNT as nat;
    lemma_pruned_lookup(snapshot, path[0]);
    lemma_pruned_ordered(snapshot);
    lemma_restoring_keeps_sections(earlier, stored, all, path[0]);
    lemma_restoring_ordered(earlier, stored, all);
    law_save_replaces_sections(stored, submitted, path);
    law_restoring_keeps_others(earlier, stored, all, path);
    if path[0] == "state"@ {
        let alone = seq!["state"@];
        assert(apart_from_secrets(alone)) by {
            lemma_secret_keys();
            reveal_strlit("state");
            reveal_strlit("http");
            reveal_strlit("ai");
            reveal_strlit("song_review");
            reveal_strlit("turtle_soup");
            assert forall|k: int| 0 <= k < SECRET_COUNT implies parts_from(
                split(#[trigger] secret_paths()[k], '.'),
                alone,
            ) by {
                let keys = split(secret_paths()[k], '.');
                assert("state"@[0] == 's' && "state"@[1] == 't');
                assert("http"@[0] == 'h' && "ai"@[0] == 'a' && "turtle_soup"@[1] == 'u'
                    && "song_review"@[1] == 'o');
                assert(keys[0] != alone[0]);
                assert(keys.take(0) =~= alone.take(0));
            }
        }
        law_restoring_keeps_others(earlier, stored, all, alone);
    } else {
        assert(path_value(submitted, path) == section_value(
            lookup(submitted, path[0]),
            path.drop_first(),
        ));
        assert(path_value(earlier, path) == section_value(
            lookup(earlier, path[0]),
            path.drop_first(),
        ));
    }
}

/// Without what the schema does not know, a secret is what it was or is not there.
proof fn lemma_pruned_secret(entries: Seq<(Seq<char>, JsonView)>, k: int)
    requires
        0 <= k < SECRET_COUNT,
    ensures
        value_at(pruned(entries), secret_paths()[k]) is Some ==> value_at(
            pruned(entries),
            secret_paths()[k],
        ) == value_at(entries, secret_paths()[k]),
{
    let keys = split(secret_paths()[k], '.');
    lemma_secret_keys();
    lemma_pruned_lookup(entries, keys[0]);
    match (lookup(entries, keys[0]), named_section(sections(), keys[0])) {
        (Some(JsonView::Object(inner)), Some(section)) => {
            law_prune(inner, section, keys[1]);
            assert(keys.drop_first()[0] == keys[1]);
            reveal_with_fuel(path_value, 3);
        },
        _ => {},
    }
}

/// A secret that is submitted stands in what is to be saved before the secrets
/// are settled, where it is stored at all.
proof fn lemma_merged_secret(
    stored: Seq<(Seq<char>, JsonView)>,
    submitted: Seq<(Seq<char>, JsonView)>,
    k: int,
)
    requires
        1 <= k < SECRET_COUNT,
        keys_ascend(submitted),
        value_at(submitted, secret_paths()[k]) is Some,
    ensures
        value_at(merge_of(stored, submitted), secret_paths()[k]) == value_at(
            submitted,
            secret_paths()[k],
        ),
{
    let keys = split(secret_paths()[k], '.');
    lemma_secret_keys();
    reveal_strlit("http");
    reveal_strlit("logging");
    reveal_strlit("state");
    reveal_strlit("ai");
    reveal_strlit("song_review");
    reveal_strlit("turtle_soup");
    assert("http"@[0] == 'h' && "logging"@[0] == 'l' && "state"@[1] == 't');
    assert("ai"@[0] == 'a' && "song_review"@[0] == 's' && "song_review"@[1] == 'o'
        && "turtle_soup"@[0] == 't');
    law_merge(pruned(stored), submitted, keys[0]);
}

/// After a roll back the secrets are those of now, where they are stored and the
/// earlier version has room for them.
pub proof fn law_rollback_keeps_secrets(
    snapshot: Seq<(Seq<char>, JsonView)>,
    stored: Seq<(Seq<char>, JsonView)>,
    k: int,
)
    requires
        1 <= k < SECRET_COUNT,
        ordered(JsonView::Object(snapshot)),
        ordered(JsonView::Object(stored)),
        value_at(stored, secret_paths()[k]) is Some,
        !clear_marker(value_at(stored, secret_paths()[k])),
        path_written(
            pruned(snapshot),
            split(secret_paths()[k], '.'),
            value_at(stored, secret_paths()[k])->0,
        ) is Some,
    ensures
        value_at(
            candidate_of(stored, rolled_back(snapshot, stored)),
            secret_paths()[k],
        ) == value_at(stored, secret_paths()[k]),
{
    let submitted = rolled_back(snapshot, stored);
    lemma_pruned_ordered(snapshot);
    lemma_restoring_ordered(pruned(snapshot), stored, SECRET_COUNT as nat);
    law_secrets_restored(pruned(snapshot), stored, k);
    lemma_merged_secret(stored, submitted, k);
    law_secrets_settle(merge_of(stored, submitted), pruned(stored), k);
    lemma_pruned_secret(stored, k);
}

// ---------------------------------------------------------------------------
// Showing
// ---------------------------------------------------------------------------
/// The sections with what is not stored put in.
pub open spec fn injected(
    entries: Seq<(Seq<char>, JsonView)>,
    http: JsonView,
    logging: JsonView,
    database_path: Seq<char>,
) -> Seq<(Seq<char>, JsonView)> {
    let more = put(put(entries, "http"@, http), "logging"@, logging);
    match lookup(more, "state"@) {
        Some(JsonView::Object(state)) => put(
            more,
            "state"@,
            JsonView::Object(put(state, "playback_state_path"@, JsonView::String(database_path))),
        ),
        _ => more,
    }
}

/// The configuration as it is shown: the stored sections with the defaults for
/// what they lack and with what is not stored, the secrets masked.
pub open spec fn shown(
    stored: Seq<(Seq<char>, JsonView)>,
    defaults: JsonView,
    http: JsonView,
    logging: JsonView,
    database_path: Seq<char>,
) -> JsonView {
    match filled(JsonView::Object(stored), defaults) {
        JsonView::Object(entries) => masked(
            JsonView::Object(injected(entries, http, logging, database_path)),
            Seq::empty(),
        ),
        other => other,
    }
}

/// To save what is shown keeps the stored secrets.
pub proof fn law_shown_keeps_secrets(
    stored: Seq<(Seq<char>, JsonView)>,
    defaults: JsonView,
    http: JsonView,
    logging: JsonView,
    database_path: Seq<char>,
    k: int,
)
    requires
        1 <= k < SECRET_COUNT,
        ordered(JsonView::Object(stored)),
        ordered(defaults),
        ordered(http),
        ordered(logging),
        value_at(pruned(stored), secret_paths()[k]) is Some,
    ensures
        shown(stored, defaults, http, logging, database_path) is Object,
        value_at(
            candidate_of(stored, shown(stored, defaults, http, logging, database_path)->Object_0),
            secret_paths()[k],
        ) == value_at(pruned(stored), secret_paths()[k]),
{
    let path = secret_paths()[k];
    let keys = split(path, '.');
    let all = match defaults {
        JsonView::Object(others) => filled_entries(stored, others),
        _ => stored,
    };
    let full = injected(all, http, logging, database_path);
    lemma_secret_keys();
    lemma_pruned_secret(stored, k);
    match defaults {
        JsonView::Object(others) => {
            lemma_filled_is_found(stored, others, keys);
        },
        _ => {},
    }
    lemma_filled_ordered(JsonView::Object(stored), defaults);
    assert(filled(JsonView::Object(stored), defaults) == JsonView::Object(all));
    lemma_injected(all, http, logging, database_path, keys[0]);
    reveal_strlit("http");
    reveal_strlit("logging");
    reveal_strlit("state");
    reveal_strlit("ai");
    reveal_strlit("song_review");
    reveal_strlit("turtle_soup");
    assert("http"@[0] == 'h' && "logging"@[0] == 'l' && "state"@[1] == 't');
    assert("ai"@[0] == 'a' && "song_review"@[0] == 's' && "song_review"@[1] == 'o'
        && "turtle_soup"@[0] == 't');
    assert(value_at(full, path) == value_at(all, path));
    law_mask_hides_secrets(full, k);
    let submitted = shown(stored, defaults, http, logging, database_path)->Object_0;
    assert(keys_ascend(submitted)) by {
        assert forall|i: int, j: int| 0 <= i < j < submitted.len() implies before(
            submitted[i].0,
            submitted[j].0,
        ) by {
            assert(before(full[i].0, full[j].0));
        }
    }
    lemma_merged_secret(stored, submitted, k);
    let merged = merge_of(stored, submitted);
    lemma_found_is_writable(merged, keys, value_at(pruned(stored), path)->0);
    law_secrets_settle(merged, pruned(stored), k);
}

/// What is put in leaves the other sections alone and in order.
proof fn lemma_injected(
    entries: Seq<(Seq<char>, JsonView)>,
    http: JsonView,
    logging: JsonView,
    database_path: Seq<char>,
    key: Seq<char>,
)
    requires
        ordered(JsonView::Object(entries)),
        ordered(http),
        ordered(logging),
    ensures
        keys_ascend(injected(entries, http, logging, database_path)),
        key != "http"@ && key != "logging"@ && key != "state"@ ==> lookup(
            injected(entries, http, logging, database_path),
            key,
        ) == lookup(entries, key),
{
    let first = put(entries, "http"@, http);
    let more = put(first, "logging"@, logging);
    lemma_put_ordered(entries, "http"@, http);
    lemma_put_ordered(first, "logging"@, logging);
    law_put_then_lookup(entries, "http"@, http, key);
    law_put_then_lookup(first, "logging"@, logging, key);
    match lookup(more, "state"@) {
        Some(JsonView::Object(state)) => {
            let text = JsonView::String(database_path);
            let after = JsonView::Object(put(state, "playback_state_path"@, text));
            let at = lemma_lookup_index(more, "state"@);
            assert(ordered(more[at].1));
            lemma_put_ordered(state, "playback_state_path"@, text);
            lemma_put_ordered(more, "state"@, after);
            law_put_then_lookup(more, "state"@, after, key);
        },
        _ => {},
    }
}

/// The cache of songs as it is switched on.
pub open spec fn audio_cache_view() -> JsonView {
    JsonView::Object(
        seq![
            ("directory"@, JsonView::String("deps/cache/audio"@)),
            ("enabled"@, JsonView::Bool(true)),
            ("max_bytes_mb"@, JsonView::Number(JsonNumber::Unsigned(20480))),
            ("max_concurrent_downloads"@, JsonView::Number(JsonNumber::Unsigned(2))),
            ("request_timeout_ms"@, JsonView::Number(JsonNumber::Unsigned(15000))),
            ("seek_wait_timeout_ms"@, JsonView::Number(JsonNumber::Unsigned(10000))),
        ],
    )
}

/// A configuration with the cache of songs switched on, where it has a section
/// for it.
pub open spec fn with_audio_cache(defaults: JsonView) -> JsonView {
    match defaults {
        JsonView::Object(entries) => match lookup(entries, "playback"@) {
            Some(JsonView::Object(playback)) => JsonView::Object(
                put(
                    entries,
                    "playback"@,
                    JsonView::Object(put(playback, "audio_cache"@, audio_cache_view())),
                ),
            ),
            _ => defaults,
        },
        _ => defaults,
    }
}

/// The cache of songs as it is switched on.
fn audio_cache_json() -> (r: Json)
    ensures
        r@ == audio_cache_view(),
{
    let entries = vec![
        (owned("directory"), Json::String(owned("deps/cache/audio"))),
        (owned("enabled"), Json::Bool(true)),
        (owned("max_bytes_mb"), Json::Number(JsonNumber::Unsigned(20480))),
        (owned("max_concurrent_downloads"), Json::Number(JsonNumber::Unsigned(2))),
        (owned("request_timeout_ms"), Json::Number(JsonNumber::Unsigned(15000))),
        (owned("seek_wait_timeout_ms"), Json::Number(JsonNumber::Unsigned(10000))),
    ];
    proof {
        lemma_object_view(entries);
        assert(entries_view(entries@) =~= audio_cache_view()->Object_0);
    }
    Json::Object(entries)
}

/// The default configuration, with the cache of songs switched on so that its
/// fields have values.
pub fn default_config_json_with_audio_cache(defaults: Json) -> (r: Json)
    requires
        ordered(defaults@),
    ensures
        r@ == with_audio_cache(defaults@),
{
    match defaults {
        Json::Object(found) => {
            let mut entries = found;
            proof {
                lemma_object_view(found);
            }
            let ghost start = entries_view(entries@);
            if let Some(i) = position(&entries, "playback") {
                proof {
                    if entries@[i as int].1 is Object {
                        lemma_object_view(entries@[i as int].1->Object_0);
                    }
                }
                let mut held = Json::Null;
                core::mem::swap(&mut held, &mut entries[i].1);
                match held {
                    Json::Object(inside) => {
                        let mut playback = inside;
                        insert(&mut playback, "audio_cache", audio_cache_json());
                        entries[i].1 = Json::Object(playback);
                        proof {
                            lemma_object_view(playback);
                            lemma_put_at(start, "playback"@, Json::Object(playback)@, i as int);
                            assert(entries_view(entries@) =~= put(
                                start,
                                "playback"@,
                                Json::Object(playback)@,
                            ));
                        }
                    },
                    other => {
                        entries[i].1 = other;
                        assert(entries_view(entries@) =~= start);
                    },
                }
            }
            proof {
                lemma_object_view(entries);
            }
            Json::Object(entries)
        },
        other => other,
    }
}

fn put_state_path(entries: &mut Vec<(String, Json)>, database_path: &str)
    requires
        ordered(JsonView::Object(entries_view(old(entries)@))),
    ensures
        entries_view(final(entries)@) == match lookup(entries_view(old(entries)@), "state"@) {
            Some(JsonView::Object(state)) => put(
                entries_view(old(entries)@),
                "state"@,
                JsonView::Object(
                    put(state, "playback_state_path"@, JsonView::String(database_path@)),
                ),
            ),
            _ => entries_view(old(entries)@),
        },
{
    let ghost start = entries_view(entries@);
    match position(entries, "state") {
        Some(i) => {
            proof {
                if entries@[i as int].1 is Object {
                    lemma_object_view(entries@[i as int].1->Object_0);
                }
            }
            let mut held = Json::Null;
            core::mem::swap(&mut held, &mut entries[i].1);
            match held {
                Json::Object(found) => {
                    let mut state = found;
                    insert(&mut state, "playback_state_path", Json::String(owned(database_path)));
                    entries[i].1 = Json::Object(state);
                    proof {
                        lemma_object_view(state);
                        lemma_put_at(start, "state"@, Json::Object(state)@, i as int);
                        assert(entries_view(entries@) =~= put(
                            start,
                            "state"@,
                            Json::Object(state)@,
                        ));
                    }
                },
                other => {
                    entries[i].1 = other;
                    assert(entries_view(entries@) =~= start);
                },
            }
        },
        None => {},
    }
}

/// The configuration as it is shown. `http`, `logging` and `database_path` are
/// those that the program was started with.
pub fn current_value(
    stored: Vec<(String, Json)>,
    defaults: &Json,
    http: Json,
    logging: Json,
    database_path: &str,
) -> (r: Json)
    requires
        ordered(JsonView::Object(entries_view(stored@))),
        ordered(defaults@),
        ordered(http@),
        ordered(logging@),
    ensures
        r@ == shown(entries_view(stored@), defaults@, http@, logging@, database_path@),
{
    proof {
        lemma_object_view(stored);
    }
    let mut value = Json::Object(stored);
    fill_missing_defaults(&mut value, defaults);
    let ghost full = value@;
    match value {
        Json::Object(found) => {
            let mut entries = found;
            proof {
                lemma_object_view(found);
                let view = entries_view(entries@);
                lemma_put_ordered(view, "http"@, http@);
                lemma_put_ordered(put(view, "http"@, http@), "logging"@, logging@);
            }
            insert(&mut entries, "http", http);
            insert(&mut entries, "logging", logging);
            put_state_path(&mut entries, database_path);
            proof {
                lemma_object_view(entries);
            }
            let mut whole = Json::Object(entries);
            mask_secrets(&mut whole);
            whole
        },
        other => other,
    }
}

// ---------------------------------------------------------------------------
// What is shown and saved
// ---------------------------------------------------------------------------
/// What is stored is shown: at every path that is no secret's and lies neither above
/// nor below one, and in none of the sections that come from the start of the program,
/// a text, a number, a truth value, null and a list with all its items.
pub proof fn law_stored_is_shown(
    stored: Seq<(Seq<char>, JsonView)>,
    defaults: JsonView,
    http: JsonView,
    logging: JsonView,
    database_path: Seq<char>,
    keys: Seq<Seq<char>>,
)
    requires
        ordered(JsonView::Object(stored)),
        ordered(defaults),
        ordered(http),
        ordered(logging),
        keys.len() > 0,
        keys[0] != "http"@,
        keys[0] != "logging"@,
        keys[0] != "state"@,
        !passes_secret(Seq::empty(), keys),
        !above_secret(text_of_path(Seq::empty(), keys)),
        path_value(stored, keys) is Some,
        path_value(stored, keys)->0 !is Object,
    ensures
        shown(stored, defaults, http, logging, database_path) is Object,
        path_value(shown(stored, defaults, http, logging, database_path)->Object_0, keys)
            == path_value(stored, keys),
{
    let all = all_of_sections(stored, defaults);
    let full = injected(all, http, logging, database_path);
    lemma_all_of_sections(stored, defaults);
    match defaults {
        JsonView::Object(others) => {
            law_fill_keeps_what_is_there(stored, others, keys);
        },
        _ => {},
    }
    lemma_injected(all, http, logging, database_path, keys[0]);
    assert(path_value(full, keys) == path_value(all, keys));
    law_mask_changes_only_secrets(full, keys);
}

/// The stored sections with the defaults for what they lack.
spec fn all_of_sections(
    stored: Seq<(Seq<char>, JsonView)>,
    defaults: JsonView,
) -> Seq<(Seq<char>, JsonView)> {
    match defaults {
        JsonView::Object(others) => filled_entries(stored, others),
        _ => stored,
    }
}

proof fn lemma_all_of_sections(stored: Seq<(Seq<char>, JsonView)>, defaults: JsonView)
    requires
        ordered(JsonView::Object(stored)),
        ordered(defaults),
    ensures
        filled(JsonView::Object(stored), defaults) == JsonView::Object(
            all_of_sections(stored, defaults),
        ),
        ordered(JsonView::Object(all_of_sections(stored, defaults))),
{
    lemma_filled_ordered(JsonView::Object(stored), defaults);
}

/// What is not stored is shown as by default: a section that is missing, or a field
/// that is missing in a section.
pub proof fn law_default_is_shown(
    stored: Seq<(Seq<char>, JsonView)>,
    defaults: Seq<(Seq<char>, JsonView)>,
    http: JsonView,
    logging: JsonView,
    database_path: Seq<char>,
    keys: Seq<Seq<char>>,
)
    requires
        ordered(JsonView::Object(stored)),
        ordered(JsonView::Object(defaults)),
        ordered(http),
        ordered(logging),
        keys.len() > 0,
        keys[0] != "http"@,
        keys[0] != "logging"@,
        keys[0] != "state"@,
        !passes_secret(Seq::empty(), keys),
        !above_secret(text_of_path(Seq::empty(), keys)),
        path_value(stored, keys) is None,
        keys.len() > 1 ==> (path_value(stored, keys.drop_last()) matches Some(value)
            && value is Object),
        keys.len() > 1 ==> (path_value(defaults, keys.drop_last()) matches Some(value)
            && value is Object),
    ensures
        path_value(
            shown(stored, JsonView::Object(defaults), http, logging, database_path)->Object_0,
            keys,
        ) == path_value(defaults, keys),
{
    let all = filled_entries(stored, defaults);
    let full = injected(all, http, logging, database_path);
    lemma_all_of_sections(stored, JsonView::Object(defaults));
    law_fill_adds_what_is_missing(stored, defaults, keys);
    lemma_injected(all, http, logging, database_path, keys[0]);
    assert(path_value(full, keys) == path_value(all, keys));
    law_mask_changes_only_secrets(full, keys);
}

/// What the program was started with is shown: the log as it is, a field of the pages
/// that is no secret as it is, their token masked, and the path of the database in the
/// state.
pub proof fn law_start_is_shown(
    stored: Seq<(Seq<char>, JsonView)>,
    defaults: JsonView,
    http: Seq<(Seq<char>, JsonView)>,
    logging: JsonView,
    database_path: Seq<char>,
    field: Seq<char>,
)
    requires
        ordered(JsonView::Object(stored)),
        ordered(defaults),
        ordered(JsonView::Object(http)),
        ordered(logging),
        !passes_secret(Seq::empty(), seq!["http"@, field]),
        !above_secret(text_of_path(Seq::empty(), seq!["http"@, field])),
    ensures
        ({
            let page = shown(
                stored,
                defaults,
                JsonView::Object(http),
                logging,
                database_path,
            )->Object_0;
            &&& lookup(page, "logging"@) == Some(logging)
            &&& section_field(page, "http"@, field) == lookup(http, field)
            &&& lookup(http, "access_token"@) is Some ==> section_field(
                page,
                "http"@,
                "access_token"@,
            ) == Some(JsonView::String("••••••"@))
            &&& lookup(stored, "state"@) matches Some(JsonView::Object(_)) ==> section_field(
                page,
                "state"@,
                "playback_state_path"@,
            ) == Some(JsonView::String(database_path))
        }),
{
    let all = all_of_sections(stored, defaults);
    let full = injected(all, JsonView::Object(http), logging, database_path);
    lemma_all_of_sections(stored, defaults);
    reveal_strlit("http");
    reveal_strlit("logging");
    reveal_strlit("state");
    reveal_strlit("ai");
    reveal_strlit("song_review");
    reveal_strlit("turtle_soup");
    assert("http"@[0] == 'h' && "logging"@[0] == 'l' && "state"@[0] == 's');
    assert("state"@[1] == 't' && "song_review"@[1] == 'o' && "ai"@[0] == 'a');
    assert("logging"@.len() == 7 && "state"@.len() == 5 && "turtle_soup"@.len() == 11);
    lemma_injected_start(all, JsonView::Object(http), logging, database_path);
    assert(!"logging"@.contains('.'));
    assert(!"state"@.contains('.'));
    law_other_sections_are_shown(full, "logging"@);
    law_other_sections_are_shown(full, "state"@);
    let page = shown(stored, defaults, JsonView::Object(http), logging, database_path)->Object_0;
    lemma_two_keys(full, "http"@, field);
    lemma_two_keys(page, "http"@, field);
    law_mask_changes_only_secrets(full, seq!["http"@, field]);
    lemma_secret_keys();
    law_mask_hides_secrets(full, 0);
    lemma_two_keys(full, "http"@, "access_token"@);
    lemma_two_keys(page, "http"@, "access_token"@);
    match (lookup(stored, "state"@), defaults) {
        (Some(JsonView::Object(_)), JsonView::Object(others)) => {
            law_fill(stored, others, "state"@);
        },
        _ => {},
    }
}

proof fn lemma_injected_start(
    entries: Seq<(Seq<char>, JsonView)>,
    http: JsonView,
    logging: JsonView,
    database_path: Seq<char>,
)
    requires
        "http"@ != "logging"@,
        "http"@ != "state"@,
        "logging"@ != "state"@,
    ensures
        lookup(injected(entries, http, logging, database_path), "http"@) == Some(http),
        lookup(injected(entries, http, logging, database_path), "logging"@) == Some(logging),
        lookup(entries, "state"@) matches Some(JsonView::Object(_)) ==> section_field(
            injected(entries, http, logging, database_path),
            "state"@,
            "playback_state_path"@,
        ) == Some(JsonView::String(database_path)),
{
    let first = put(entries, "http"@, http);
    let more = put(first, "logging"@, logging);
    let text = JsonView::String(database_path);
    law_put_then_lookup(entries, "http"@, http, "http"@);
    law_put_then_lookup(entries, "http"@, http, "state"@);
    law_put_then_lookup(first, "logging"@, logging, "http"@);
    law_put_then_lookup(first, "logging"@, logging, "logging"@);
    law_put_then_lookup(first, "logging"@, logging, "state"@);
    match lookup(more, "state"@) {
        Some(JsonView::Object(state)) => {
            let after = JsonView::Object(put(state, "playback_state_path"@, text));
            law_put_then_lookup(more, "state"@, after, "http"@);
            law_put_then_lookup(more, "state"@, after, "logging"@);
            law_put_then_lookup(more, "state"@, after, "state"@);
            law_put_then_lookup(state, "playback_state_path"@, text, "playback_state_path"@);
        },
        _ => {},
    }
}

/// To save what is shown changes nothing that is stored, at every path that is no
/// secret's and lies neither above nor below one.
pub proof fn law_saving_what_is_shown(
    stored: Seq<(Seq<char>, JsonView)>,
    defaults: JsonView,
    http: JsonView,
    logging: JsonView,
    database_path: Seq<char>,
    keys: Seq<Seq<char>>,
)
    requires
        ordered(JsonView::Object(stored)),
        ordered(defaults),
        ordered(http),
        ordered(logging),
        keys.len() > 0,
        keys[0] != "http"@,
        keys[0] != "logging"@,
        keys[0] != "state"@,
        apart_from_secrets(keys),
        !passes_secret(Seq::empty(), keys),
        !above_secret(text_of_path(Seq::empty(), keys)),
        path_value(stored, keys) is Some,
        path_value(stored, keys)->0 !is Object,
    ensures
        path_value(
            candidate_of(stored, shown(stored, defaults, http, logging, database_path)->Object_0),
            keys,
        ) == path_value(stored, keys),
{
    law_stored_is_shown(stored, defaults, http, logging, database_path, keys);
    let page = shown(stored, defaults, http, logging, database_path)->Object_0;
    let all = all_of_sections(stored, defaults);
    let full = injected(all, http, logging, database_path);
    lemma_all_of_sections(stored, defaults);
    lemma_injected(all, http, logging, database_path, keys[0]);
    assert(keys_ascend(page)) by {
        assert forall|i: int, j: int| 0 <= i < j < page.len() implies before(
            page[i].0,
            page[j].0,
        ) by {
            assert(before(full[i].0, full[j].0));
        }
    }
    law_save_replaces_sections(stored, page, keys);
}

/// What is submitted is saved: at every path that parts from those of the secrets and
/// lies in a section that is stored as it is, what a submitted section has there is
/// there afterwards, and what it lacks is gone.
pub proof fn law_submitted_is_saved(
    stored: Seq<(Seq<char>, JsonView)>,
    submitted: Seq<(Seq<char>, JsonView)>,
    keys: Seq<Seq<char>>,
)
    requires
        keys_ascend(submitted),
        keys.len() > 0,
        keys[0] != "http"@,
        keys[0] != "logging"@,
        keys[0] != "state"@,
        apart_from_secrets(keys),
        lookup(submitted, keys[0]) is Some,
    ensures
        path_value(candidate_of(stored, submitted), keys) == path_value(submitted, keys),
{
    law_save_replaces_sections(stored, submitted, keys);
}

/// What is not submitted stays as it is stored, as far as the schema knows it.
pub proof fn law_other_sections_stay(
    stored: Seq<(Seq<char>, JsonView)>,
    submitted: Seq<(Seq<char>, JsonView)>,
    keys: Seq<Seq<char>>,
)
    requires
        keys_ascend(submitted),
        keys.len() > 0,
        keys[0] != "http"@,
        keys[0] != "logging"@,
        keys[0] != "state"@,
        apart_from_secrets(keys),
        lookup(submitted, keys[0]) is None,
    ensures
        path_value(candidate_of(stored, submitted), keys) == path_value(pruned(stored), keys),
{
    law_save_replaces_sections(stored, submitted, keys);
}

/// The program that logs in, the program of the game and its arguments cannot be
/// changed by a save: one that would is refused, and for nothing else is a save
/// refused before it is checked.
pub proof fn law_what_cannot_be_changed(
    stored: Seq<(Seq<char>, JsonView)>,
    submitted: Seq<(Seq<char>, JsonView)>,
)
    ensures
        refusals(stored, submitted).len() == 0 <==> {
            let before = pruned(stored);
            let after = merge_of(stored, submitted);
            &&& section_field(before, "playback"@, "login_helper_executable"@) == section_field(
                after,
                "playback"@,
                "login_helper_executable"@,
            )
            &&& section_field(before, "startup"@, "exe_path"@) == section_field(
                after,
                "startup"@,
                "exe_path"@,
            )
            &&& section_field(before, "startup"@, "game_args"@) == section_field(
                after,
                "startup"@,
                "game_args"@,
            )
        },
{
    reveal_with_fuel(immutable_errors, 4);
}

/// Where all rows can be read, each section is the value of the last row of its name, and
/// there is no other section; where one cannot, the first that cannot is told.
pub proof fn law_rows_are_sections(
    rows: Seq<(Seq<char>, Result<JsonView, Seq<char>>)>,
    n: int,
    k: int,
)
    requires
        0 <= k < n <= rows.len(),
    ensures
        (forall|i: int| 0 <= i < n ==> (#[trigger] rows[i]).1 is Ok) ==> {
            &&& sections_of(rows, n) matches Ok(entries)
            &&& (forall|i: int| k < i < n ==> (#[trigger] rows[i]).0 != rows[k].0) ==> lookup(
                entries,
                rows[k].0,
            ) == Some(rows[k].1->Ok_0)
        },
        rows[k].1 is Err && (forall|i: int| 0 <= i < k ==> (#[trigger] rows[i]).1 is Ok)
            ==> sections_of(rows, n) == Err::<Seq<(Seq<char>, JsonView)>, Seq<char>>(
            "解析配置段 "@ + rows[k].0 + " 失败"@,
        ),
{
    if forall|i: int| 0 <= i < n ==> (#[trigger] rows[i]).1 is Ok {
        lemma_rows_read(rows, n, k);
    }
    if rows[k].1 is Err && (forall|i: int| 0 <= i < k ==> (#[trigger] rows[i]).1 is Ok) {
        if k > 0 {
            lemma_rows_read(rows, k, 0);
        }
        assert(sections_of(rows, k) is Ok);
        lemma_unread_stays(rows, k + 1, n);
    }
}

proof fn lemma_rows_read(
    rows: Seq<(Seq<char>, Result<JsonView, Seq<char>>)>,
    n: int,
    k: int,
)
    requires
        0 <= k < n <= rows.len(),
        forall|i: int| 0 <= i < n ==> (#[trigger] rows[i]).1 is Ok,
    ensures
        sections_of(rows, n) is Ok,
        (forall|i: int| k < i < n ==> (#[trigger] rows[i]).0 != rows[k].0) ==> lookup(
            sections_of(rows, n)->Ok_0,
            rows[k].0,
        ) == Some(rows[k].1->Ok_0),
    decreases n,
{
    assert(rows[n - 1].1 is Ok);
    if n > 1 {
        if k < n - 1 {
            lemma_rows_read(rows, n - 1, k);
        } else {
            lemma_rows_read(rows, n - 1, 0);
        }
    }
    assert(sections_of(rows, n - 1) is Ok);
    let earlier = sections_of(rows, n - 1)->Ok_0;
    law_put_then_lookup(earlier, rows[n - 1].0, rows[n - 1].1->Ok_0, rows[k].0);
    if k < n - 1 && (forall|i: int| k < i < n ==> (#[trigger] rows[i]).0 != rows[k].0) {
        assert(rows[n - 1].0 != rows[k].0);
    }
}

/// What is to be saved is accepted exactly where it changes no field that cannot be changed
/// and makes a configuration without an error, and is then saved as it was prepared; else
/// it is told what is wrong, first the fields that cannot be changed.
pub proof fn law_accepting(
    prepared: Result<Candidate, ConfigFieldErrors>,
    config: Result<AppConfig, String>,
    outside: OutsideChecks,
    name: Option<Seq<char>>,
    r: Result<Candidate, ConfigSaveError>,
)
    requires
        accepted(prepared, config, outside, name, r),
    ensures
        r is Ok <==> prepared is Ok && (config matches Ok(made) && made.error(outside, name)
            is None),
        r matches Ok(written) ==> prepared == Ok::<Candidate, ConfigFieldErrors>(written),
        r is Err ==> r->Err_0 is Fields,
        prepared matches Err(errors) ==> (r matches Err(ConfigSaveError::Fields(told))
            && error_views(told.errors@) == error_views(errors.errors@)),
        prepared is Ok ==> (config matches Err(reason) ==> (r matches Err(ConfigSaveError::Fields(
            told,
        )) && error_views(told.errors@) == seq![field_error(reason@)])),
{
}

/// The cache of songs is switched on where there is a player; nothing else of the defaults
/// changes.
pub proof fn law_cache_is_switched_on(
    entries: Seq<(Seq<char>, JsonView)>,
    playback: Seq<(Seq<char>, JsonView)>,
    key: Seq<char>,
)
    requires
        lookup(entries, "playback"@) == Some(JsonView::Object(playback)),
    ensures
        ({
            let after = with_audio_cache(JsonView::Object(entries));
            &&& after matches JsonView::Object(sections)
            &&& key != "playback"@ ==> lookup(sections, key) == lookup(entries, key)
            &&& lookup(sections, "playback"@) matches Some(JsonView::Object(player))
            &&& key != "audio_cache"@ ==> lookup(player, key) == lookup(playback, key)
            &&& lookup(player, "audio_cache"@) matches Some(JsonView::Object(cache))
            &&& lookup(cache, "enabled"@) == Some(JsonView::Bool(true))
            &&& lookup(cache, "directory"@) == Some(JsonView::String("deps/cache/audio"@))
        }),
{
    let player = put(playback, "audio_cache"@, audio_cache_view());
    law_put_then_lookup(entries, "playback"@, JsonView::Object(player), key);
    law_put_then_lookup(entries, "playback"@, JsonView::Object(player), "playback"@);
    law_put_then_lookup(playback, "audio_cache"@, audio_cache_view(), key);
    law_put_then_lookup(playback, "audio_cache"@, audio_cache_view(), "audio_cache"@);
    reveal_strlit("directory");
    reveal_strlit("enabled");
    assert("directory"@.len() == 9 && "enabled"@.len() == 7);
    reveal_with_fuel(lookup, 3);
    let cache = audio_cache_view()->Object_0;
    assert(cache[0].0 == "directory"@);
    assert(cache.drop_first()[0].0 == "enabled"@);
}

/// Without a player the defaults stay.
pub proof fn law_no_cache_without_a_player(entries: Seq<(Seq<char>, JsonView)>)
    ensures
        lookup(entries, "playback"@) is None ==> with_audio_cache(JsonView::Object(entries))
            == JsonView::Object(entries),
{
}

/// A version is shown by its number, and the fifty latest are kept.
pub proof fn law_numbers_of_versions(stored: i64)
    ensures
        stored >= 0 ==> shown_revision(stored) == stored,
        KEPT_REVISIONS == 50,
        0 <= stored < i64::MAX ==> has_next(stored),
{
}

/// The cache that is switched on by itself holds twenty gigabytes under
/// `deps/cache/audio`, fetches two songs at a time, and waits fifteen seconds for an
/// answer and ten for a place in a song.
pub proof fn law_cache_by_itself()
    ensures
        audio_cache_view() matches JsonView::Object(cache) && {
            &&& lookup(cache, "directory"@) == Some(JsonView::String("deps/cache/audio"@))
            &&& lookup(cache, "enabled"@) == Some(JsonView::Bool(true))
            &&& lookup(cache, "max_bytes_mb"@) == Some(
                JsonView::Number(JsonNumber::Unsigned(20480)),
            )
            &&& lookup(cache, "max_concurrent_downloads"@) == Some(
                JsonView::Number(JsonNumber::Unsigned(2)),
            )
            &&& lookup(cache, "request_timeout_ms"@) == Some(
                JsonView::Number(JsonNumber::Unsigned(15000)),
            )
            &&& lookup(cache, "seek_wait_timeout_ms"@) == Some(
                JsonView::Number(JsonNumber::Unsigned(10000)),
            )
        },
{
    reveal_strlit("directory");
    reveal_strlit("enabled");
    reveal_strlit("max_bytes_mb");
    reveal_strlit("max_concurrent_downloads");
    reveal_strlit("request_timeout_ms");
    reveal_strlit("seek_wait_timeout_ms");
    assert("directory"@[0] == 'd' && "enabled"@[0] == 'e');
    assert("max_bytes_mb"@[0] == 'm' && "max_bytes_mb"@[4] == 'b');
    assert("max_concurrent_downloads"@[0] == 'm' && "max_concurrent_downloads"@[4] == 'c');
    assert("request_timeout_ms"@[0] == 'r' && "seek_wait_timeout_ms"@[0] == 's');
    let cache = audio_cache_view()->Object_0;
    let one = cache.drop_first();
    let two = one.drop_first();
    let three = two.drop_first();
    let four = three.drop_first();
    let five = four.drop_first();
    assert(one[0] == cache[1] && two[0] == cache[2] && three[0] == cache[3]);
    assert(four[0] == cache[4] && five[0] == cache[5]);
    reveal_with_fuel(lookup, 7);
}

} // verus!
