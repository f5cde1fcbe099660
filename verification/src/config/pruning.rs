//! Taking out of stored sections what the schema does not know.
use vstd::prelude::*;
use crate::config::json::Json;
use crate::config::json::JsonView;
use crate::config::json::before;
use crate::config::json::entries_view;
use crate::config::json::keys_ascend;
use crate::config::json::lemma_object_view;
use crate::config::json::lookup;
use crate::config::json::ordered;
use crate::config::schema::FieldView;
use crate::config::schema::catalog::ConfigSectionSchema;
use crate::config::schema::catalog::SectionView;
use crate::config::schema::catalog::lemma_named_section;
use crate::config::schema::catalog::named_section;
use crate::config::schema::catalog::section_schema;
use crate::config::schema::catalog::sections;
use crate::scan::{lemma_split_join, lemma_split_whole};
use crate::scan::occurs_at;
use crate::scan::slice;
use crate::scan::split;
use crate::scan::split_on;
use crate::scan::stands_at;
use crate::text::cat2;
use crate::text::from_chars;
use crate::text::str_equal;
use crate::text::to_chars;

verus! {

/// The key of a section under which a field stands.
pub open spec fn top_key(section: Seq<char>, field: FieldView) -> Option<Seq<char>> {
    let head = section + "."@;
    if occurs_at(field.path, head, 0) {
        Some(split(field.path.skip(head.len() as int), '.')[0])
    } else {
        None
    }
}

/// Whether a section has a field under a key.
pub open spec fn declared_key(section: SectionView, key: Seq<char>) -> bool {
    exists|i: int|
        0 <= i < section.fields.len() && #[trigger] top_key(section.name, section.fields[i])
            == Some(key)
}

/// Whether a key is one that a section had once and is no longer read: the two of
/// the program that used to find songs.
pub open spec fn removed_key(section: Seq<char>, key: Seq<char>) -> bool {
    section == "playback"@ && (key == "kugou_api_executable"@ || key == "kugou_api_base_url"@)
}

/// Whether what stands under a key of a section is read: the schema declares it,
/// and it is not one that was removed.
pub open spec fn known_key(section: SectionView, key: Seq<char>) -> bool {
    declared_key(section, key) && !removed_key(section.name, key)
}

/// The entries that a section knows.
pub open spec fn kept(entries: Seq<(Seq<char>, JsonView)>, section: SectionView) -> Seq<
    (Seq<char>, JsonView),
>
    decreases entries.len(),
{
    if entries.len() == 0 {
        Seq::empty()
    } else if known_key(section, entries.last().0) {
        kept(entries.drop_last(), section).push(entries.last())
    } else {
        kept(entries.drop_last(), section)
    }
}

/// A section without what is not read of it. A section that the schema does not
/// know stays as it is.
pub open spec fn pruned_value(name: Seq<char>, value: JsonView) -> JsonView {
    match (named_section(sections(), name), value) {
        (Some(section), JsonView::Object(entries)) => JsonView::Object(kept(entries, section)),
        _ => value,
    }
}

/// The sections without what is not read of them.
pub open spec fn pruned(entries: Seq<(Seq<char>, JsonView)>) -> Seq<(Seq<char>, JsonView)> {
    Seq::new(entries.len(), |i: int| (entries[i].0, pruned_value(entries[i].0, entries[i].1)))
}

proof fn lemma_kept_entries(entries: Seq<(Seq<char>, JsonView)>, section: SectionView, i: int) -> (at:
    int)
    requires
        0 <= i < kept(entries, section).len(),
    ensures
        0 <= at < entries.len(),
        kept(entries, section)[i] == entries[at],
        known_key(section, entries[at].0),
    decreases entries.len(),
{
    let fewer = entries.drop_last();
    if known_key(section, entries.last().0) && i == kept(fewer, section).len() {
        entries.len() - 1
    } else {
        lemma_kept_entries(fewer, section, i)
    }
}

proof fn lemma_kept_ordered(entries: Seq<(Seq<char>, JsonView)>, section: SectionView)
    requires
        ordered(JsonView::Object(entries)),
    ensures
        ordered(JsonView::Object(kept(entries, section))),
    decreases entries.len(),
{
    if entries.len() > 0 {
        let fewer = entries.drop_last();
        let after = kept(entries, section);
        assert(keys_ascend(fewer)) by {
            assert forall|i: int, j: int| 0 <= i < j < fewer.len() implies before(
                fewer[i].0,
                fewer[j].0,
            ) by {
                assert(before(entries[i].0, entries[j].0));
            }
        }
        assert forall|i: int| 0 <= i < fewer.len() implies ordered((#[trigger] fewer[i]).1) by {
            assert(ordered(entries[i].1));
        }
        lemma_kept_ordered(fewer, section);
        if known_key(section, entries.last().0) {
            let earlier = kept(fewer, section);
            assert(ordered(entries[entries.len() - 1].1));
            assert forall|i: int, j: int| 0 <= i < j < after.len() implies before(
                after[i].0,
                after[j].0,
            ) by {
                if j < earlier.len() {
                    assert(before(earlier[i].0, earlier[j].0));
                } else {
                    let at = lemma_kept_entries(fewer, section, i);
                    assert(before(entries[at].0, entries[entries.len() - 1].0));
                }
            }
            assert forall|i: int| 0 <= i < after.len() implies ordered((#[trigger] after[i]).1) by {
                if i < earlier.len() {
                    assert(ordered(earlier[i].1));
                }
            }
        }
    }
}

/// What is read of a section stays as it was, and nothing else stays.
pub proof fn law_prune(entries: Seq<(Seq<char>, JsonView)>, section: SectionView, key: Seq<char>)
    ensures
        lookup(kept(entries, section), key) == (if known_key(section, key) {
            lookup(entries, key)
        } else {
            None
        }),
    decreases entries.len(),
{
    if entries.len() > 0 {
        let fewer = entries.drop_last();
        law_prune(fewer, section, key);
        lemma_lookup_last(entries, key);
        if known_key(section, entries.last().0) {
            let after = kept(entries, section);
            assert(after.drop_last() =~= kept(fewer, section));
            lemma_lookup_last(after, key);
        }
    }
}

/// What was removed is dropped from the stored section, whatever it holds.
pub proof fn law_removed_is_dropped(
    entries: Seq<(Seq<char>, JsonView)>,
    inner: Seq<(Seq<char>, JsonView)>,
    name: Seq<char>,
    key: Seq<char>,
)
    requires
        removed_key(name, key),
        lookup(entries, name) == Some(JsonView::Object(inner)),
    ensures
        lookup(pruned(entries), name) matches Some(JsonView::Object(after)) && lookup(after, key)
            is None,
{
    lemma_pruned_lookup(entries, name);
    assert(sections()[8].name == "playback"@);
    lemma_named_section(sections(), name, 8);
    law_prune(inner, named_section(sections(), name)->0, key);
}

/// Sections stay in order without what the schema does not know.
pub proof fn lemma_pruned_ordered(entries: Seq<(Seq<char>, JsonView)>)
    requires
        ordered(JsonView::Object(entries)),
    ensures
        ordered(JsonView::Object(pruned(entries))),
{
    let after = pruned(entries);
    assert forall|i: int, j: int| 0 <= i < j < after.len() implies before(
        after[i].0,
        after[j].0,
    ) by {
        assert(before(entries[i].0, entries[j].0));
    }
    assert forall|k: int| 0 <= k < after.len() implies ordered((#[trigger] after[k]).1) by {
        assert(ordered(entries[k].1));
        match (named_section(sections(), entries[k].0), entries[k].1) {
            (Some(section), JsonView::Object(inner)) => {
                lemma_kept_ordered(inner, section);
            },
            _ => {},
        }
    }
}

/// What stands under a name stands there without what its section does not know.
pub proof fn lemma_pruned_lookup(entries: Seq<(Seq<char>, JsonView)>, key: Seq<char>)
    ensures
        lookup(pruned(entries), key) == match lookup(entries, key) {
            Some(value) => Some(pruned_value(key, value)),
            None => None,
        },
    decreases entries.len(),
{
    if entries.len() > 0 {
        let rest = entries.drop_first();
        lemma_pruned_lookup(rest, key);
        assert(pruned(entries).drop_first() =~= pruned(rest));
    }
}

/// What is found among entries is found before the last, or is the last.
proof fn lemma_lookup_last(entries: Seq<(Seq<char>, JsonView)>, key: Seq<char>)
    requires
        entries.len() > 0,
    ensures
        lookup(entries, key) == match lookup(entries.drop_last(), key) {
            Some(v) => Some(v),
            None => if entries.last().0 == key {
                Some(entries.last().1)
            } else {
                None
            },
        },
    decreases entries.len(),
{
    let fewer = entries.drop_last();
    if entries.len() > 1 && entries[0].0 == key {
        assert(fewer[0] == entries[0]);
        assert(lookup(fewer, key) == Some(entries[0].1));
    } else if entries.len() > 1 {
        assert(fewer[0] == entries[0]);
        lemma_lookup_last(entries.drop_first(), key);
        assert(entries.drop_first().drop_last() =~= entries.drop_last().drop_first());
        assert(entries.drop_first().last() == entries.last());
        assert(lookup(fewer, key) == lookup(fewer.drop_first(), key));
    } else {
        assert(lookup(entries.drop_first(), key) is None);
        assert(lookup(fewer, key) is None);
    }
}

/// The key of a section under which a field stands.
fn find_top_key(section: &str, path: &str) -> (r: Option<String>)
    ensures
        forall|field: FieldView|
            field.path == path@ ==> match r {
                Some(key) => #[trigger] top_key(section@, field) == Some(key@),
                None => top_key(section@, field) is None,
            },
{
    let head = to_chars(cat2(section, ".").as_str());
    let chars = to_chars(path);
    if !stands_at(&chars, &head, 0) {
        return None;
    }
    let rest = slice(&chars, head.len(), chars.len());
    assert(rest@ =~= path@.skip(head@.len() as int));
    let parts = split_on(from_chars(rest.as_slice()).as_str(), '.');
    Some(parts[0].clone())
}

/// Whether a key is one that a section had once and is no longer read.
fn is_removed_key(section: &str, key: &str) -> (r: bool)
    ensures
        r == removed_key(section@, key@),
{
    str_equal(section, "playback") && (str_equal(key, "kugou_api_executable") || str_equal(
        key,
        "kugou_api_base_url",
    ))
}

/// Whether what stands under a key of a section is read.
fn is_known_key(section: &ConfigSectionSchema, key: &str) -> (r: bool)
    ensures
        r == known_key(section@, key@),
{
    !is_removed_key(section.name.as_str(), key) && is_declared_key(section, key)
}

/// Whether a section has a field under a key.
fn is_declared_key(section: &ConfigSectionSchema, key: &str) -> (r: bool)
    ensures
        r == declared_key(section@, key@),
{
    let mut i: usize = 0;
    while i < section.fields.len()
        invariant
            i <= section.fields@.len(),
            forall|k: int|
                0 <= k < i ==> #[trigger] top_key(section@.name, section@.fields[k]) != Some(key@),
        decreases section.fields@.len() - i,
    {
        let ghost field = section@.fields[i as int];
        assert(field == section.fields@[i as int]@);
        match find_top_key(section.name.as_str(), section.fields[i].path.as_str()) {
            Some(found) => {
                assert(top_key(section@.name, field) == Some(found@));
                if str_equal(found.as_str(), key) {
                    return true;
                }
            },
            None => {
                assert(top_key(section@.name, field) is None);
            },
        }
        i = i + 1;
    }
    false
}

/// Takes out of an object what a section does not know.
fn keep_known(entries: Vec<(String, Json)>, section: &ConfigSectionSchema) -> (r: Vec<
    (String, Json),
>)
    ensures
        entries_view(r@) == kept(entries_view(entries@), section@),
{
    let mut rest = entries;
    let mut out: Vec<(String, Json)> = Vec::new();
    let ghost all = entries_view(entries@);
    let mut i: usize = 0;
    let total: usize = rest.len();
    assert(all.take(0) =~= Seq::empty());
    assert(entries_view(out@) =~= Seq::empty());
    while i < total
        invariant
            i <= total,
            total == entries@.len(),
            rest@.len() == total,
            all == entries_view(entries@),
            forall|k: int| i <= k < total ==> rest@[k] == entries@[k],
            entries_view(out@) == kept(all.take(i as int), section@),
        decreases total - i,
    {
        let ghost so_far = entries_view(out@);
        let ghost more = all.take(i + 1);
        assert(more.drop_last() =~= all.take(i as int));
        assert(more.last() == (entries@[i as int].0@, entries@[i as int].1@));
        if is_known_key(section, rest[i].0.as_str()) {
            let mut value = Json::Null;
            core::mem::swap(&mut value, &mut rest[i].1);
            out.push((rest[i].0.clone(), value));
            assert(entries_view(out@) =~= so_far.push(more.last()));
        }
        i = i + 1;
    }
    assert(all.take(total as int) =~= all);
    out
}

/// Takes out of stored sections what the schema does not know, and what was removed
/// from it.
pub fn prune_unknown_schema_fields(entries: &mut Vec<(String, Json)>)
    requires
        ordered(JsonView::Object(entries_view(old(entries)@))),
    ensures
        entries_view(final(entries)@) == pruned(entries_view(old(entries)@)),
        ordered(JsonView::Object(entries_view(final(entries)@))),
{
    let ghost start = entries@;
    let ghost before_view = entries_view(start);
    let mut i: usize = 0;
    while i < entries.len()
        invariant
            i <= entries@.len(),
            entries@.len() == start.len(),
            forall|k: int| i <= k < start.len() ==> entries@[k] == start[k],
            forall|k: int|
                0 <= k < i ==> (#[trigger] entries@[k]).0@ == start[k].0@ && entries@[k].1@
                    == pruned_value(start[k].0@, start[k].1@),
        decreases entries@.len() - i,
    {
        match section_schema(entries[i].0.as_str()) {
            Some(section) => {
                let mut held = Json::Null;
                core::mem::swap(&mut held, &mut entries[i].1);
                match held {
                    Json::Object(found) => {
                        proof {
                            lemma_object_view(found);
                        }
                        let known = keep_known(found, &section);
                        proof {
                            lemma_object_view(known);
                        }
                        entries[i].1 = Json::Object(known);
                    },
                    other => {
                        entries[i].1 = other;
                    },
                }
            },
            None => {},
        }
        i = i + 1;
    }
    proof {
        let after = entries_view(entries@);
        assert(after =~= pruned(before_view));
        lemma_pruned_ordered(before_view);
    }
}

/// A field of a section stands under what follows the name of the section and a dot, up to
/// the next dot; a field of another section stands under nothing here.
pub proof fn law_where_fields_stand(
    section: Seq<char>,
    key: Seq<char>,
    rest: Seq<char>,
    field: FieldView,
)
    requires
        !key.contains('.'),
    ensures
        field.path == section + "."@ + key ==> top_key(section, field) == Some(key),
        field.path == section + "."@ + (key + seq!['.'] + rest) ==> top_key(section, field) == Some(
            key,
        ),
        !(field.path.len() > section.len() && field.path.take(section.len() as int + 1) == section
            + "."@) ==> top_key(section, field) is None,
{
    reveal_strlit(".");
    assert("."@ =~= seq!['.']);
    let head = section + "."@;
    let n = head.len() as int;
    lemma_split_whole(key, '.');
    lemma_split_join(key, rest, '.');
    assert((seq![key] + split(rest, '.'))[0] == key);
    if field.path == section + "."@ + key {
        assert(field.path.subrange(0, n) =~= head);
        assert(field.path.skip(n) =~= key);
    }
    if field.path == section + "."@ + (key + seq!['.'] + rest) {
        assert(field.path.subrange(0, n) =~= head);
        assert(field.path.skip(n) =~= key + seq!['.'] + rest);
    }
    if top_key(section, field) is Some {
        assert(field.path.subrange(0, n) =~= field.path.take(n));
    }
}

/// What stands under the key of a field that the schema has is kept as it is, whether the
/// field stands there itself or deeper; unless it is one of the two that are no longer
/// read.
pub proof fn law_known_is_kept(
    entries: Seq<(Seq<char>, JsonView)>,
    section: SectionView,
    key: Seq<char>,
    rest: Seq<char>,
    i: int,
)
    requires
        0 <= i < section.fields.len(),
        !key.contains('.'),
        section.fields[i].path == section.name + "."@ + key || section.fields[i].path
            == section.name + "."@ + (key + seq!['.'] + rest),
        section.name != "playback"@ || (key != "kugou_api_executable"@ && key
            != "kugou_api_base_url"@),
    ensures
        lookup(kept(entries, section), key) == lookup(entries, key),
{
    law_where_fields_stand(section.name, key, rest, section.fields[i]);
    assert(top_key(section.name, section.fields[i]) == Some(key));
    law_prune(entries, section, key);
}

/// What stands under a key with which no field of the section begins is dropped, and so is
/// what the player of songs had once.
pub proof fn law_unknown_is_dropped(
    entries: Seq<(Seq<char>, JsonView)>,
    section: SectionView,
    key: Seq<char>,
)
    ensures
        (forall|i: int|
            0 <= i < section.fields.len() ==> top_key(
                section.name,
                #[trigger] section.fields[i],
            ) != Some(key)) ==> lookup(kept(entries, section), key) is None,
        section.name == "playback"@ ==> lookup(
            kept(entries, section),
            "kugou_api_executable"@,
        ) is None && lookup(kept(entries, section), "kugou_api_base_url"@) is None,
{
    law_prune(entries, section, key);
    law_prune(entries, section, "kugou_api_executable"@);
    law_prune(entries, section, "kugou_api_base_url"@);
}

/// Sections stay in place, and one that the schema does not know, or that is no object, as
/// it is.
pub proof fn law_sections_stay(entries: Seq<(Seq<char>, JsonView)>, i: int)
    requires
        0 <= i < entries.len(),
    ensures
        pruned(entries).len() == entries.len(),
        pruned(entries)[i].0 == entries[i].0,
        named_section(sections(), entries[i].0) is None ==> pruned(entries)[i].1 == entries[i].1,
        entries[i].1 !is Object ==> pruned(entries)[i].1 == entries[i].1,
{
}

} // verus!
