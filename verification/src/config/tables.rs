//! The tables of the configuration in the database: whether they are there and
//! have the shape that is expected of them.
use vstd::prelude::*;
use crate::config::checks::equal_lowered;
use crate::config::checks::lowered;
use crate::config::sql::check_clauses;
use crate::config::sql::extract_check_constraints;
use crate::config::sql::normal_check;
use crate::config::sql::normalize_check;
use crate::text::cat3;
use crate::text::cat7;
use crate::text::format_i64;
use crate::text::signed_decimal;
use crate::text::str_equal;
use crate::text::string_views;

verus! {

/// The version of the tables.
pub const CONFIG_SCHEMA_VERSION: i64 = 1;

/// A column of a table.
#[derive(Clone, Debug)]
pub struct TableColumn {
    pub name: String,
    /// The type as it was declared.
    pub declared_type: String,
    pub not_null: bool,
}

/// A column of a table, as plain values.
#[verifier::ext_equal]
pub struct ColumnView {
    pub name: Seq<char>,
    pub declared_type: Seq<char>,
    pub not_null: bool,
}

impl View for TableColumn {
    type V = ColumnView;

    open spec fn view(&self) -> ColumnView {
        ColumnView {
            name: self.name@,
            declared_type: self.declared_type@,
            not_null: self.not_null,
        }
    }
}

/// The views of columns.
pub open spec fn column_views(columns: Seq<TableColumn>) -> Seq<ColumnView> {
    Seq::new(columns.len(), |i: int| columns[i]@)
}

/// A column that is expected.
#[derive(Clone, Copy, Debug)]
pub struct ExpectedColumn {
    pub name: &'static str,
    pub declared_type: &'static str,
    pub not_null: bool,
}

impl View for ExpectedColumn {
    type V = ColumnView;

    open spec fn view(&self) -> ColumnView {
        ColumnView {
            name: self.name@,
            declared_type: self.declared_type@,
            not_null: self.not_null,
        }
    }
}

/// The views of expected columns.
pub open spec fn expected_views(columns: Seq<ExpectedColumn>) -> Seq<ColumnView> {
    Seq::new(columns.len(), |i: int| columns[i]@)
}

/// A column.
pub open spec fn column(name: Seq<char>, declared_type: Seq<char>, not_null: bool) -> ColumnView {
    ColumnView { name, declared_type, not_null }
}

/// The columns of `config_meta`.
pub open spec fn meta_columns() -> Seq<ColumnView> {
    seq![
        column("id"@, "INTEGER"@, false),
        column("schema_version"@, "INTEGER"@, true),
        column("revision"@, "INTEGER"@, true),
        column("updated_at_ms"@, "INTEGER"@, true),
    ]
}

/// The columns of `config_sections`.
pub open spec fn sections_columns() -> Seq<ColumnView> {
    seq![
        column("section"@, "TEXT"@, false),
        column("value_json"@, "TEXT"@, true),
        column("revision"@, "INTEGER"@, true),
        column("updated_at_ms"@, "INTEGER"@, true),
    ]
}

/// The columns of `config_revisions`.
pub open spec fn revisions_columns() -> Seq<ColumnView> {
    seq![
        column("revision"@, "INTEGER"@, false),
        column("snapshot_json"@, "TEXT"@, true),
        column("created_at_ms"@, "INTEGER"@, true),
    ]
}

fn expected(name: &'static str, declared_type: &'static str, not_null: bool) -> (r: ExpectedColumn)
    ensures
        r@ == column(name@, declared_type@, not_null),
{
    ExpectedColumn { name, declared_type, not_null }
}

/// The columns of `config_meta`.
pub fn expected_meta_columns() -> (r: Vec<ExpectedColumn>)
    ensures
        expected_views(r@) == meta_columns(),
{
    let columns = vec![
        expected("id", "INTEGER", false),
        expected("schema_version", "INTEGER", true),
        expected("revision", "INTEGER", true),
        expected("updated_at_ms", "INTEGER", true),
    ];
    assert(expected_views(columns@) =~= meta_columns());
    columns
}

/// The columns of `config_sections`.
pub fn expected_sections_columns() -> (r: Vec<ExpectedColumn>)
    ensures
        expected_views(r@) == sections_columns(),
{
    let columns = vec![
        expected("section", "TEXT", false),
        expected("value_json", "TEXT", true),
        expected("revision", "INTEGER", true),
        expected("updated_at_ms", "INTEGER", true),
    ];
    assert(expected_views(columns@) =~= sections_columns());
    columns
}

/// The columns of `config_revisions`.
pub fn expected_revisions_columns() -> (r: Vec<ExpectedColumn>)
    ensures
        expected_views(r@) == revisions_columns(),
{
    let columns = vec![
        expected("revision", "INTEGER", false),
        expected("snapshot_json", "TEXT", true),
        expected("created_at_ms", "INTEGER", true),
    ];
    assert(expected_views(columns@) =~= revisions_columns());
    columns
}

/// The first column of a name.
pub open spec fn named_column(columns: Seq<ColumnView>, name: Seq<char>) -> Option<ColumnView>
    decreases columns.len(),
{
    if columns.len() == 0 {
        None
    } else if columns[0].name == name {
        Some(columns[0])
    } else {
        named_column(columns.drop_first(), name)
    }
}

/// Whether among some columns there is one like that which is expected.
pub open spec fn has_column(columns: Seq<ColumnView>, wanted: ColumnView) -> bool {
    match named_column(columns, wanted.name) {
        Some(found) => lowered(found.declared_type) == lowered(wanted.declared_type) && found.not_null
            == wanted.not_null,
        None => false,
    }
}

/// Whether a table is there and has the columns that are expected, in any
/// order.
pub open spec fn structure_matches(
    columns: Option<Seq<ColumnView>>,
    wanted: Seq<ColumnView>,
) -> bool {
    match columns {
        Some(found) => found.len() == wanted.len() && forall|i: int|
            0 <= i < wanted.len() ==> has_column(found, #[trigger] wanted[i]),
        None => false,
    }
}

fn is_column_there(columns: &Vec<TableColumn>, wanted: &ExpectedColumn) -> (r: bool)
    ensures
        r == has_column(column_views(columns@), wanted@),
{
    let ghost views = column_views(columns@);
    let mut i: usize = 0;
    assert(views.skip(0) =~= views);
    while i < columns.len()
        invariant
            i <= columns@.len(),
            views == column_views(columns@),
            named_column(views, wanted@.name) == named_column(
                views.skip(i as int),
                wanted@.name,
            ),
        decreases columns@.len() - i,
    {
        assert(views.skip(i as int)[0] == columns@[i as int]@);
        if str_equal(columns[i].name.as_str(), wanted.name) {
            return equal_lowered(columns[i].declared_type.as_str(), wanted.declared_type)
                && columns[i].not_null == wanted.not_null;
        }
        assert(views.skip(i as int).drop_first() =~= views.skip(i + 1));
        i = i + 1;
    }
    false
}

/// The columns of a table that may be missing.
pub open spec fn table_view(columns: Option<&Vec<TableColumn>>) -> Option<Seq<ColumnView>> {
    match columns {
        Some(found) => Some(column_views(found@)),
        None => None,
    }
}

/// Whether a table is there and has the columns that are expected.
pub fn table_structure_matches(
    columns: Option<&Vec<TableColumn>>,
    wanted: &Vec<ExpectedColumn>,
) -> (r: bool)
    ensures
        r == structure_matches(table_view(columns), expected_views(wanted@)),
{
    match columns {
        Some(found) => {
            if found.len() != wanted.len() {
                return false;
            }
            let ghost views = expected_views(wanted@);
            let mut i: usize = 0;
            while i < wanted.len()
                invariant
                    i <= wanted@.len(),
                    views == expected_views(wanted@),
                    found@.len() == wanted@.len(),
                    columns == Some(found),
                    forall|k: int|
                        0 <= k < i ==> has_column(column_views(found@), #[trigger] views[k]),
                decreases wanted@.len() - i,
            {
                assert(views[i as int] == wanted@[i as int]@);
                if !is_column_there(found, &wanted[i]) {
                    return false;
                }
                i = i + 1;
            }
            true
        },
        None => false,
    }
}

// ---------------------------------------------------------------------------
// The key and the constraint of `config_meta`
// ---------------------------------------------------------------------------
/// What the database tells of the table `config_meta`.
#[derive(Clone, Debug)]
pub struct MetaFacts {
    /// The columns of the index of the primary key, where there is one.
    pub key_index: Option<Vec<String>>,
    /// The columns of the table, each with its place in the primary key, or
    /// with zero.
    pub key_places: Vec<(String, i64)>,
    /// The statement that made the table.
    pub sql: Option<String>,
}

/// The names of the columns that have a place in the primary key.
pub open spec fn key_columns(places: Seq<(String, i64)>) -> Seq<Seq<char>>
    decreases places.len(),
{
    if places.len() == 0 {
        Seq::empty()
    } else if places.last().1 > 0 {
        key_columns(places.drop_last()).push(places.last().0@)
    } else {
        key_columns(places.drop_last())
    }
}

/// Whether the primary key is the column `id` alone, and each CHECK constraint,
/// of which there is one at least, says that it is one.
pub open spec fn constraints_match(facts: MetaFacts) -> bool {
    &&& match facts.key_index {
        Some(columns) => string_views(columns@) == seq!["id"@],
        None => key_columns(facts.key_places@) == seq!["id"@],
    }
    &&& match facts.sql {
        Some(sql) => check_clauses(sql@).len() > 0 && forall|i: int|
            0 <= i < check_clauses(sql@).len() ==> normal_check(#[trigger] check_clauses(sql@)[i])
                == "check(id=1)"@,
        None => false,
    }
}

/// Whether names are `id` alone.
fn is_id_alone(names: &Vec<String>) -> (r: bool)
    ensures
        r == (string_views(names@) == seq!["id"@]),
{
    if names.len() != 1 {
        assert(string_views(names@).len() != 1);
        return false;
    }
    let same = str_equal(names[0].as_str(), "id");
    proof {
        assert(string_views(names@)[0] == names@[0]@);
        if same {
            assert(string_views(names@) =~= seq!["id"@]);
        }
    }
    same
}

/// Whether the primary key is the column `id` alone, and each CHECK constraint,
/// of which there is one at least, says that it is one.
pub fn config_meta_constraints_match(facts: &MetaFacts) -> (r: bool)
    ensures
        r == constraints_match(*facts),
{
    match &facts.key_index {
        Some(columns) => {
            if !is_id_alone(columns) {
                return false;
            }
        },
        None => {
            let mut names: Vec<String> = Vec::new();
            let mut i: usize = 0;
            let places = &facts.key_places;
            assert(places@.take(0) =~= Seq::empty());
            assert(string_views(names@) =~= Seq::empty());
            while i < places.len()
                invariant
                    i <= places@.len(),
                    string_views(names@) == key_columns(places@.take(i as int)),
                decreases places@.len() - i,
            {
                let ghost so_far = string_views(names@);
                assert(places@.take(i + 1).drop_last() =~= places@.take(i as int));
                if places[i].1 > 0 {
                    names.push(places[i].0.clone());
                    assert(string_views(names@) =~= so_far.push(places@[i as int].0@));
                }
                i = i + 1;
            }
            assert(places@.take(places@.len() as int) =~= places@);
            if !is_id_alone(&names) {
                return false;
            }
        },
    }
    match &facts.sql {
        Some(sql) => {
            let clauses = extract_check_constraints(sql.as_str());
            let ghost views = check_clauses(sql@);
            assert(string_views(clauses@) == views);
            if clauses.len() == 0 {
                return false;
            }
            let mut i: usize = 0;
            while i < clauses.len()
                invariant
                    i <= clauses@.len(),
                    views == string_views(clauses@),
                    views == check_clauses(sql@),
                    facts.sql == Some(*sql),
                    forall|k: int|
                        0 <= k < i ==> normal_check(#[trigger] views[k]) == "check(id=1)"@,
                decreases clauses@.len() - i,
            {
                assert(views[i as int] == clauses@[i as int]@);
                if !str_equal(normalize_check(clauses[i].as_str()).as_str(), "check(id=1)") {
                    assert(normal_check(check_clauses(sql@)[i as int]) != "check(id=1)"@);
                    return false;
                }
                i = i + 1;
            }
            true
        },
        None => false,
    }
}

// ---------------------------------------------------------------------------
// Opening
// ---------------------------------------------------------------------------
/// What the database tells of the tables of the configuration.
#[derive(Clone, Debug)]
pub struct TableFacts {
    /// The columns of `config_meta`, where it is there.
    pub meta: Option<Vec<TableColumn>>,
    pub meta_facts: MetaFacts,
    /// The columns of `config_sections`, where it is there.
    pub sections: Option<Vec<TableColumn>>,
    /// The columns of `config_revisions`, where it is there.
    pub revisions: Option<Vec<TableColumn>>,
}

/// What is to be done with a database that is opened.
#[derive(Debug)]
pub enum OpenStep {
    /// There is no table: make them and write the defaults.
    Initialize,
    /// The tables are as expected: read the version.
    ReadVersion,
    /// The tables are not as expected.
    Refuse(String),
}

/// How many of the tables are there.
pub open spec fn tables_there(facts: TableFacts) -> int {
    (if facts.meta is Some { 1int } else { 0 }) + (if facts.sections is Some { 1int } else { 0 })
        + (if facts.revisions is Some { 1int } else { 0 })
}

/// Whether the columns of a table that is there are as expected.
pub open spec fn columns_fit(columns: Option<Vec<TableColumn>>, wanted: Seq<ColumnView>) -> bool {
    columns is Some && structure_matches(Some(column_views(columns->0@)), wanted)
}

/// Whether all tables have the shape that is expected.
pub open spec fn tables_fit(facts: TableFacts) -> bool {
    &&& columns_fit(facts.meta, meta_columns())
    &&& constraints_match(facts.meta_facts)
    &&& columns_fit(facts.sections, sections_columns())
    &&& columns_fit(facts.revisions, revisions_columns())
}

fn is_fit(columns: &Option<Vec<TableColumn>>, wanted: &Vec<ExpectedColumn>) -> (r: bool)
    ensures
        r == columns_fit(*columns, expected_views(wanted@)),
{
    match columns {
        Some(found) => table_structure_matches(Some(found), wanted),
        None => false,
    }
}

/// What is to be done with a database whose tables are these. `path` is the
/// path of the database.
pub fn ensure_schema(facts: &TableFacts, path: &str) -> (r: OpenStep)
    ensures
        match r {
            OpenStep::Initialize => tables_there(*facts) == 0,
            OpenStep::ReadVersion => tables_there(*facts) == 3 && tables_fit(*facts),
            OpenStep::Refuse(message) => if tables_there(*facts) == 3 {
                &&& !tables_fit(*facts)
                &&& message@ == "配置数据库表结构不匹配，请删除 "@ + path@ + " 后重启"@
            } else {
                &&& tables_there(*facts) != 0
                &&& message@ == "配置数据库表结构不匹配（配置表缺失），请删除 "@ + path@
                    + " 后重启"@
            },
        },
{
    let mut count: usize = 0;
    if facts.meta.is_some() {
        count = count + 1;
    }
    if facts.sections.is_some() {
        count = count + 1;
    }
    if facts.revisions.is_some() {
        count = count + 1;
    }
    if count == 0 {
        return OpenStep::Initialize;
    }
    if count != 3 {
        return OpenStep::Refuse(
            cat3("配置数据库表结构不匹配（配置表缺失），请删除 ", path, " 后重启"),
        );
    }
    if !is_fit(&facts.meta, &expected_meta_columns())
        || !config_meta_constraints_match(&facts.meta_facts)
        || !is_fit(&facts.sections, &expected_sections_columns())
        || !is_fit(&facts.revisions, &expected_revisions_columns()) {
        return OpenStep::Refuse(cat3("配置数据库表结构不匹配，请删除 ", path, " 后重启"));
    }
    OpenStep::ReadVersion
}

/// Whether the version that the database tells is the one that is needed.
pub fn check_version(version: Option<i64>, path: &str) -> (r: Result<(), String>)
    ensures
        r is Ok <==> version == Some(CONFIG_SCHEMA_VERSION),
        match (version, r) {
            (None, Err(message)) => message@ == "配置数据库 config_meta 缺少初始化数据，请删除 "@
                + path@ + " 后重启"@,
            (Some(found), Err(message)) => message@ == "配置数据库 schema 版本不兼容（当前 "@
                + signed_decimal(found as int) + "，需要 "@ + signed_decimal(
                CONFIG_SCHEMA_VERSION as int,
            ) + "），请删除 "@ + path@ + " 后重启"@,
            _ => true,
        },
{
    match version {
        None => Err(cat3("配置数据库 config_meta 缺少初始化数据，请删除 ", path, " 后重启")),
        Some(found) => {
            if found == CONFIG_SCHEMA_VERSION {
                Ok(())
            } else {
                Err(
                    cat7(
                        "配置数据库 schema 版本不兼容（当前 ",
                        format_i64(found).as_str(),
                        "，需要 ",
                        format_i64(CONFIG_SCHEMA_VERSION).as_str(),
                        "），请删除 ",
                        path,
                        " 后重启",
                    ),
                )
            }
        },
    }
}

/// How often the database is opened before giving up.
pub const OPEN_CONNECTION_RETRIES: u64 = 3;

/// What follows where the database could not be opened.
#[derive(Clone, Copy, Debug, PartialEq, Eq, Structural)]
pub enum OpenRetry {
    /// It is tried again after so many milliseconds.
    Wait(u64),
    GiveUp,
}

/// What follows where the database could not be opened. `attempt` counts from 1:
/// each wait is longer than the one before. Another process that makes the same
/// file holds it only for a moment.
pub fn after_failed_open(attempt: u64) -> (r: OpenRetry)
    ensures
        r == (if attempt < OPEN_CONNECTION_RETRIES {
            OpenRetry::Wait((100 * attempt) as u64)
        } else {
            OpenRetry::GiveUp
        }),
{
    if attempt < OPEN_CONNECTION_RETRIES {
        OpenRetry::Wait(100 * attempt)
    } else {
        OpenRetry::GiveUp
    }
}

// ---------------------------------------------------------------------------
// What holds of it
// ---------------------------------------------------------------------------
proof fn lemma_named(columns: Seq<ColumnView>, name: Seq<char>)
    ensures
        named_column(columns, name) matches Some(found) ==> found.name == name && columns.contains(
            found,
        ),
        named_column(columns, name) is None ==> forall|i: int|
            0 <= i < columns.len() ==> (#[trigger] columns[i]).name != name,
    decreases columns.len(),
{
    if columns.len() > 0 && columns[0].name != name {
        let rest = columns.drop_first();
        lemma_named(rest, name);
        match named_column(rest, name) {
            Some(found) => {
                let i = choose|i: int| 0 <= i < rest.len() && rest[i] == found;
                assert(columns[i + 1] == found);
            },
            None => {
                assert forall|i: int| 0 <= i < columns.len() implies (#[trigger] columns[i]).name
                    != name by {
                    if i > 0 {
                        assert(rest[i - 1] == columns[i]);
                    }
                }
            },
        }
    } else if columns.len() > 0 {
        assert(columns[0] == named_column(columns, name)->0);
    }
}

/// A table that has exactly the columns that are expected is as expected; their order and
/// the case in which their types are written make no difference.
pub proof fn law_expected_table(found: Seq<ColumnView>, wanted: Seq<ColumnView>)
    requires
        found.len() == wanted.len(),
        forall|i: int, j: int|
            0 <= i < j < found.len() ==> (#[trigger] found[i]).name != (#[trigger] found[j]).name,
        forall|i: int|
            0 <= i < wanted.len() ==> exists|j: int|
                0 <= j < found.len() && (#[trigger] found[j]).name == (#[trigger] wanted[i]).name
                    && lowered(found[j].declared_type) == lowered(wanted[i].declared_type)
                    && found[j].not_null == wanted[i].not_null,
    ensures
        structure_matches(Some(found), wanted),
{
    assert forall|i: int| 0 <= i < wanted.len() implies has_column(found, #[trigger] wanted[i]) by {
        let j = choose|j: int|
            0 <= j < found.len() && (#[trigger] found[j]).name == wanted[i].name && lowered(
                found[j].declared_type,
            ) == lowered(wanted[i].declared_type) && found[j].not_null == wanted[i].not_null;
        lemma_named(found, wanted[i].name);
        let named = named_column(found, wanted[i].name);
        assert(named is Some) by {
            if named is None {
                assert(found[j].name != wanted[i].name);
            }
        }
        let k = choose|k: int| 0 <= k < found.len() && found[k] == named->0;
        assert(found[k].name == found[j].name);
        assert(k == j);
    }
}

/// A table is not as expected where it is missing, has another number of columns, lacks a
/// column, or has one of another type or that may be missing otherwise.
pub proof fn law_other_table(found: Seq<ColumnView>, wanted: Seq<ColumnView>, i: int)
    requires
        0 <= i < wanted.len(),
    ensures
        !structure_matches(None, wanted),
        found.len() != wanted.len() ==> !structure_matches(Some(found), wanted),
        (forall|j: int|
            0 <= j < found.len() ==> (#[trigger] found[j]).name != wanted[i].name || lowered(
                found[j].declared_type,
            ) != lowered(wanted[i].declared_type) || found[j].not_null != wanted[i].not_null)
            ==> !structure_matches(Some(found), wanted),
{
    if structure_matches(Some(found), wanted) {
        assert(has_column(found, wanted[i]));
        lemma_named(found, wanted[i].name);
        let named = named_column(found, wanted[i].name)->0;
        let k = choose|k: int| 0 <= k < found.len() && found[k] == named;
        assert(found[k].name == wanted[i].name);
    }
}

/// The primary key has the columns that have a place in it, in order.
pub proof fn law_key_columns(places: Seq<(String, i64)>, place: (String, i64))
    ensures
        key_columns(Seq::empty()) == Seq::<Seq<char>>::empty(),
        place.1 > 0 ==> key_columns(places.push(place)) == key_columns(places).push(place.0@),
        place.1 <= 0 ==> key_columns(places.push(place)) == key_columns(places),
{
    assert(places.push(place).drop_last() =~= places);
}

/// The table of the version has one row only: its key is `id` alone, and a constraint says
/// that it is one, and no constraint says anything else.
pub proof fn law_one_row(facts: MetaFacts)
    ensures
        constraints_match(facts) ==> {
            &&& facts.key_index matches Some(columns) ==> columns@.len() == 1 && columns@[0]@
                == "id"@
            &&& facts.key_index is None ==> key_columns(facts.key_places@) == seq!["id"@]
            &&& facts.sql matches Some(sql)
            &&& check_clauses(sql@).len() > 0
            &&& normal_check(check_clauses(sql@)[0]) == "check(id=1)"@
        },
        facts.sql is None ==> !constraints_match(facts),
        facts.sql matches Some(sql) ==> (check_clauses(sql@).len() == 0 ==> !constraints_match(
            facts,
        )),
        facts.sql matches Some(sql) ==> (forall|i: int|
            0 <= i < check_clauses(sql@).len() && normal_check(
                #[trigger] check_clauses(sql@)[i],
            ) != "check(id=1)"@ ==> !constraints_match(facts)),
{
    if constraints_match(facts) {
        match facts.key_index {
            Some(columns) => {
                assert(string_views(columns@).len() == 1);
                assert(string_views(columns@)[0] == columns@[0]@);
            },
            None => {},
        }
    }
}

/// The tables are made where none is there, read where all three are there and each is as
/// expected, and refused where one is missing or is not.
pub proof fn law_tables(facts: TableFacts)
    ensures
        facts.meta is None && facts.sections is None && facts.revisions is None <==> tables_there(
            facts,
        ) == 0,
        facts.meta is Some && facts.sections is Some && facts.revisions is Some <==> tables_there(
            facts,
        ) == 3,
        tables_fit(facts) ==> {
            &&& tables_there(facts) == 3
            &&& constraints_match(facts.meta_facts)
            &&& structure_matches(Some(column_views(facts.meta->0@)), meta_columns())
            &&& structure_matches(Some(column_views(facts.sections->0@)), sections_columns())
            &&& structure_matches(Some(column_views(facts.revisions->0@)), revisions_columns())
        },
        tables_there(facts) == 3 && constraints_match(facts.meta_facts) && structure_matches(
            Some(column_views(facts.meta->0@)),
            meta_columns(),
        ) && structure_matches(Some(column_views(facts.sections->0@)), sections_columns())
            && structure_matches(Some(column_views(facts.revisions->0@)), revisions_columns())
            ==> tables_fit(facts),
{
}

/// Each table has a column for the moment at which a row was written; versions count in the
/// table of the version, in that of the sections and in that of the snapshots, where the
/// version is the key.
pub proof fn law_columns()
    ensures
        meta_columns().len() == 4,
        sections_columns().len() == 4,
        revisions_columns().len() == 3,
        meta_columns().contains(column("revision"@, "INTEGER"@, true)),
        sections_columns().contains(column("revision"@, "INTEGER"@, true)),
        revisions_columns().contains(column("revision"@, "INTEGER"@, false)),
        meta_columns().contains(column("id"@, "INTEGER"@, false)),
        meta_columns().contains(column("schema_version"@, "INTEGER"@, true)),
        meta_columns().contains(column("updated_at_ms"@, "INTEGER"@, true)),
        sections_columns().contains(column("section"@, "TEXT"@, false)),
        sections_columns().contains(column("value_json"@, "TEXT"@, true)),
        sections_columns().contains(column("updated_at_ms"@, "INTEGER"@, true)),
        revisions_columns().contains(column("snapshot_json"@, "TEXT"@, true)),
        revisions_columns().contains(column("created_at_ms"@, "INTEGER"@, true)),
{
    assert(meta_columns()[0] == column("id"@, "INTEGER"@, false));
    assert(meta_columns()[1] == column("schema_version"@, "INTEGER"@, true));
    assert(meta_columns()[2] == column("revision"@, "INTEGER"@, true));
    assert(meta_columns()[3] == column("updated_at_ms"@, "INTEGER"@, true));
    assert(sections_columns()[0] == column("section"@, "TEXT"@, false));
    assert(sections_columns()[1] == column("value_json"@, "TEXT"@, true));
    assert(sections_columns()[2] == column("revision"@, "INTEGER"@, true));
    assert(sections_columns()[3] == column("updated_at_ms"@, "INTEGER"@, true));
    assert(revisions_columns()[0] == column("revision"@, "INTEGER"@, false));
    assert(revisions_columns()[1] == column("snapshot_json"@, "TEXT"@, true));
    assert(revisions_columns()[2] == column("created_at_ms"@, "INTEGER"@, true));
}

} // verus!
