//! Values inside a configuration, found by dotted paths such as
//! `queue.max_size`.
use vstd::prelude::*;
use crate::config::json::entries_view;
use crate::config::json::get;
use crate::config::json::insert;
use crate::config::json::lookup;
use crate::config::json::ordered;
use crate::config::json::position;
use crate::config::json::put;
use crate::config::json::Json;
use crate::config::json::JsonView;
use crate::config::json::{law_put_then_lookup, lemma_lookup_index, lemma_object_view};
use crate::config::json::{lemma_put_at, lemma_put_ordered};
use crate::scan::split;
use crate::scan::{lemma_split_join, lemma_split_some, lemma_split_whole};
use crate::scan::split_on;
use crate::text::string_views;

verus! {

/// The value that a path of keys leads to. Every key but the last must lead to
/// an object.
pub open spec fn path_value(entries: Seq<(Seq<char>, JsonView)>, path: Seq<Seq<char>>) -> Option<
    JsonView,
>
    decreases path.len(),
{
    if path.len() == 0 {
        None
    } else if path.len() == 1 {
        lookup(entries, path[0])
    } else {
        match lookup(entries, path[0]) {
            Some(JsonView::Object(inner)) => path_value(inner, path.drop_first()),
            _ => None,
        }
    }
}

/// The entries with a value written where a path of keys leads to. Objects that
/// are missing on the way are made; nothing is written where something else
/// than an object stands in the way.
pub open spec fn path_written(
    entries: Seq<(Seq<char>, JsonView)>,
    path: Seq<Seq<char>>,
    value: JsonView,
) -> Option<Seq<(Seq<char>, JsonView)>>
    decreases path.len(),
{
    if path.len() == 0 {
        None
    } else if path.len() == 1 {
        Some(put(entries, path[0], value))
    } else {
        match lookup(entries, path[0]) {
            None => match path_written(Seq::empty(), path.drop_first(), value) {
                Some(inner) => Some(put(entries, path[0], JsonView::Object(inner))),
                None => None,
            },
            Some(JsonView::Object(found)) => match path_written(found, path.drop_first(), value) {
                Some(inner) => Some(put(entries, path[0], JsonView::Object(inner))),
                None => None,
            },
            Some(_) => None,
        }
    }
}

/// The entries after a write that is not made where it cannot be.
pub open spec fn written(
    entries: Seq<(Seq<char>, JsonView)>,
    path: Seq<char>,
    value: JsonView,
) -> Seq<(Seq<char>, JsonView)> {
    match path_written(entries, split(path, '.'), value) {
        Some(after) => after,
        None => entries,
    }
}

/// The value at a dotted path.
pub open spec fn value_at(entries: Seq<(Seq<char>, JsonView)>, path: Seq<char>) -> Option<
    JsonView,
> {
    path_value(entries, split(path, '.'))
}

/// A write that is made is read back.
pub proof fn law_written_is_read(
    entries: Seq<(Seq<char>, JsonView)>,
    path: Seq<Seq<char>>,
    value: JsonView,
)
    requires
        path_written(entries, path, value) is Some,
    ensures
        path_value(path_written(entries, path, value)->0, path) == Some(value),
    decreases path.len(),
{
    let after = path_written(entries, path, value)->0;
    if path.len() == 1 {
        law_put_then_lookup(entries, path[0], value, path[0]);
    } else {
        let rest = path.drop_first();
        let found = match lookup(entries, path[0]) {
            Some(JsonView::Object(found)) => found,
            _ => Seq::empty(),
        };
        law_written_is_read(found, rest, value);
        let inner = path_written(found, rest, value)->0;
        law_put_then_lookup(entries, path[0], JsonView::Object(inner), path[0]);
    }
}

/// A write changes nothing at a path that parts from the written one.
pub proof fn law_write_keeps_others(
    entries: Seq<(Seq<char>, JsonView)>,
    path: Seq<Seq<char>>,
    value: JsonView,
    other: Seq<Seq<char>>,
    parting: int,
)
    requires
        path_written(entries, path, value) is Some,
        0 <= parting < path.len(),
        parting < other.len(),
        path[parting] != other[parting],
        path.take(parting) == other.take(parting),
    ensures
        path_value(path_written(entries, path, value)->0, other) == path_value(entries, other),
    decreases path.len(),
{
    if parting == 0 {
        if path.len() == 1 {
            law_put_then_lookup(entries, path[0], value, other[0]);
        } else {
            let found = match lookup(entries, path[0]) {
                Some(JsonView::Object(found)) => found,
                _ => Seq::empty(),
            };
            let inner = path_written(found, path.drop_first(), value)->0;
            law_put_then_lookup(entries, path[0], JsonView::Object(inner), other[0]);
        }
    } else {
        assert(path.take(parting)[0] == other.take(parting)[0]);
        let rest = path.drop_first();
        let other_rest = other.drop_first();
        assert(rest.take(parting - 1) =~= path.take(parting).drop_first());
        assert(other_rest.take(parting - 1) =~= other.take(parting).drop_first());
        let found = match lookup(entries, path[0]) {
            Some(JsonView::Object(found)) => found,
            _ => Seq::empty(),
        };
        law_write_keeps_others(found, rest, value, other_rest, parting - 1);
        let inner = path_written(found, rest, value)->0;
        law_put_then_lookup(entries, path[0], JsonView::Object(inner), other[0]);
        if lookup(entries, path[0]) is None {
            lemma_empty_has_nothing(other_rest);
        }
    }
}

/// No path leads anywhere in an empty object.
pub proof fn lemma_empty_has_nothing(path: Seq<Seq<char>>)
    ensures
        path_value(Seq::empty(), path) is None,
{
    if path.len() > 0 {
        assert(lookup(Seq::empty(), path[0]) is None);
    }
}

/// In an empty object every write can be made.
pub proof fn lemma_empty_is_writable(path: Seq<Seq<char>>, value: JsonView)
    requires
        path.len() > 0,
    ensures
        path_written(Seq::empty(), path, value) is Some,
    decreases path.len(),
{
    if path.len() > 1 {
        assert(lookup(Seq::empty(), path[0]) is None);
        lemma_empty_is_writable(path.drop_first(), value);
    }
}

/// A write keeps the keys in order.
pub proof fn lemma_written_ordered(
    entries: Seq<(Seq<char>, JsonView)>,
    path: Seq<Seq<char>>,
    value: JsonView,
)
    requires
        ordered(JsonView::Object(entries)),
        ordered(value),
        path_written(entries, path, value) is Some,
    ensures
        ordered(JsonView::Object(path_written(entries, path, value)->0)),
    decreases path.len(),
{
    if path.len() == 1 {
        lemma_put_ordered(entries, path[0], value);
    } else {
        let found = match lookup(entries, path[0]) {
            Some(JsonView::Object(found)) => found,
            _ => Seq::empty(),
        };
        if lookup(entries, path[0]) is Some {
            let i = lemma_lookup_index(entries, path[0]);
            assert(ordered(entries[i].1));
        }
        lemma_written_ordered(found, path.drop_first(), value);
        let inner = path_written(found, path.drop_first(), value)->0;
        lemma_put_ordered(entries, path[0], JsonView::Object(inner));
    }
}

/// What a path leads to in an object in order is in order.
pub proof fn lemma_path_value_ordered(entries: Seq<(Seq<char>, JsonView)>, path: Seq<Seq<char>>)
    requires
        ordered(JsonView::Object(entries)),
        path_value(entries, path) is Some,
    ensures
        ordered(path_value(entries, path)->0),
    decreases path.len(),
{
    let i = lemma_lookup_index(entries, path[0]);
    assert(ordered(entries[i].1));
    if path.len() > 1 {
        lemma_path_value_ordered(entries[i].1->Object_0, path.drop_first());
    }
}

fn read_from<'a>(entries: &'a Vec<(String, Json)>, path: &Vec<String>, at: usize) -> (r: Option<
    &'a Json,
>)
    requires
        at < path@.len(),
    ensures
        match r {
            Some(v) => path_value(
                entries_view(entries@),
                string_views(path@).skip(at as int),
            ) == Some(v@),
            None => path_value(
                entries_view(entries@),
                string_views(path@).skip(at as int),
            ) is None,
        },
    decreases path@.len() - at,
{
    let ghost keys = string_views(path@).skip(at as int);
    let found = get(entries, path[at].as_str());
    assert(keys[0] == path@[at as int]@);
    if path.len() - at == 1 {
        return found;
    }
    match found {
        Some(Json::Object(inner)) => {
            proof {
                lemma_object_view(*inner);
                assert(keys.drop_first() =~= string_views(path@).skip(at + 1));
            }
            read_from(inner, path, at + 1)
        },
        _ => None,
    }
}

/// The value at a dotted path.
pub fn get_path<'a>(root: &'a Vec<(String, Json)>, path: &str) -> (r: Option<&'a Json>)
    ensures
        match r {
            Some(v) => value_at(entries_view(root@), path@) == Some(v@),
            None => value_at(entries_view(root@), path@) is None,
        },
{
    let keys = split_on(path, '.');
    assert(string_views(keys@).skip(0) =~= string_views(keys@));
    read_from(root, &keys, 0)
}

fn write_from(entries: &mut Vec<(String, Json)>, path: &Vec<String>, at: usize, value: Json) -> (r:
    bool)
    requires
        at < path@.len(),
        ordered(JsonView::Object(entries_view(old(entries)@))),
    ensures
        match path_written(
            entries_view(old(entries)@),
            string_views(path@).skip(at as int),
            value@,
        ) {
            Some(after) => r && entries_view(final(entries)@) == after,
            None => !r && entries_view(final(entries)@) == entries_view(old(entries)@),
        },
    decreases path@.len() - at,
{
    let ghost keys = string_views(path@).skip(at as int);
    let ghost view = entries_view(entries@);
    let key = path[at].as_str();
    assert(keys[0] == key@);
    if path.len() - at == 1 {
        insert(entries, key, value);
        return true;
    }
    assert(keys.drop_first() =~= string_views(path@).skip(at + 1));
    match position(entries, key) {
        Some(i) => {
            assert(ordered(view[i as int].1));
            proof {
                if entries@[i as int].1 is Object {
                    lemma_object_view(entries@[i as int].1->Object_0);
                }
            }
            let mut held = Json::Null;
            core::mem::swap(&mut held, &mut entries[i].1);
            match held {
                Json::Object(found) => {
                    let mut inner = found;
                    let done = write_from(&mut inner, path, at + 1, value);
                    entries[i].1 = Json::Object(inner);
                    proof {
                        lemma_object_view(inner);
                        if done {
                            lemma_put_at(view, key@, Json::Object(inner)@, i as int);
                            assert(entries_view(entries@) =~= put(
                                view,
                                key@,
                                Json::Object(inner)@,
                            ));
                        } else {
                            assert(entries_view(entries@) =~= view);
                        }
                    }
                    done
                },
                other => {
                    entries[i].1 = other;
                    assert(entries@ =~= old(entries)@);
                    false
                },
            }
        },
        None => {
            let mut inner: Vec<(String, Json)> = Vec::new();
            proof {
                assert(entries_view(inner@) =~= Seq::empty());
                lemma_empty_is_writable(keys.drop_first(), value@);
            }
            let done = write_from(&mut inner, path, at + 1, value);
            proof {
                lemma_object_view(inner);
            }
            insert(entries, key, Json::Object(inner));
            done
        },
    }
}

/// Writes a value at a dotted path; says whether it was written.
pub fn set_path(map: &mut Vec<(String, Json)>, path: &str, value: Json) -> (r: bool)
    requires
        ordered(JsonView::Object(entries_view(old(map)@))),
    ensures
        r == (path_written(entries_view(old(map)@), split(path@, '.'), value@) is Some),
        entries_view(final(map)@) == written(entries_view(old(map)@), path@, value@),
{
    let keys = split_on(path, '.');
    assert(string_views(keys@).skip(0) =~= string_views(keys@));
    write_from(map, &keys, 0, value)
}

/// A value can be written where each key on the way leads to an object or to nothing, and
/// nowhere else; what is missing on the way is made.
pub proof fn law_what_can_be_written(
    entries: Seq<(Seq<char>, JsonView)>,
    path: Seq<Seq<char>>,
    value: JsonView,
)
    ensures
        path.len() == 0 ==> path_written(entries, path, value) is None,
        path.len() == 1 ==> path_written(entries, path, value) is Some,
        path.len() > 1 && lookup(entries, path[0]) is None ==> path_written(entries, path, value)
            is Some,
        path.len() > 1 ==> (lookup(entries, path[0]) matches Some(JsonView::Object(inner)) ==> (
        path_written(entries, path, value) is Some <==> path_written(
            inner,
            path.drop_first(),
            value,
        ) is Some)),
        path.len() > 1 && lookup(entries, path[0]) is Some && lookup(entries, path[0])->0 !is Object
            ==> path_written(entries, path, value) is None,
{
    if path.len() > 1 {
        lemma_empty_is_writable(path.drop_first(), value);
    }
}

/// A dotted path leads through the sections that it names, one after the other.
pub proof fn law_dotted_path(
    entries: Seq<(Seq<char>, JsonView)>,
    section: Seq<char>,
    rest: Seq<char>,
)
    requires
        !section.contains('.'),
    ensures
        value_at(entries, section) == lookup(entries, section),
        value_at(entries, section + seq!['.'] + rest) == match lookup(entries, section) {
            Some(JsonView::Object(inner)) => value_at(inner, rest),
            _ => None,
        },
{
    lemma_split_whole(section, '.');
    lemma_split_join(section, rest, '.');
    lemma_split_some(rest, '.');
    let keys = split(section + seq!['.'] + rest, '.');
    assert(keys.drop_first() =~= split(rest, '.'));
}

} // verus!
