//! The sections of a configuration: merging what is submitted with what is
//! stored, filling in defaults, and telling what changed.
use vstd::prelude::*;
use crate::config::errors::ConfigFieldError;
use crate::config::errors::FieldErrorView;
use crate::config::errors::error_views;
use crate::config::json::Json;
use crate::config::json::JsonView;
use crate::config::json::KeyOrder;
use crate::config::json::before;
use crate::config::json::copy_json;
use crate::config::json::entries_view;
use crate::config::json::equal;
use crate::config::json::get;
use crate::config::json::insert;
use crate::config::json::keys_ascend;
use crate::config::json::lemma_before_connected;
use crate::config::json::lemma_before_irreflexive;
use crate::config::json::lookup;
use crate::config::json::order_keys;
use crate::config::json::ordered;
use crate::config::json::position;
use crate::config::json::put;
use crate::config::json::remove;
use crate::config::json::without;
use crate::config::json::{law_put_then_lookup, law_without_then_lookup, lemma_ascending_differ};
use crate::config::json::{lemma_before_transitive, lemma_entry_smaller, lemma_lookup_at};
use crate::config::json::{lemma_lookup_index, lemma_lookup_none, lemma_object_view};
use crate::config::json::{lemma_put_at, lemma_put_ordered, lemma_without_ordered};
use crate::config::paths::path_value;
use crate::config::secrets::child_path;
use crate::config::secrets::join_path;
use crate::config::secrets::text_of_path;
use crate::text::cat3;
use crate::text::cat4;
use crate::text::owned;
use crate::text::string_views;

verus! {

// ---------------------------------------------------------------------------
// Merging
// ---------------------------------------------------------------------------
/// The entries without what is not stored: the sections `http` and `logging`,
/// and the path of the database in `state`.
pub open spec fn stripped(entries: Seq<(Seq<char>, JsonView)>) -> Seq<(Seq<char>, JsonView)> {
    let rest = without(without(entries, "http"@), "logging"@);
    match lookup(rest, "state"@) {
        Some(JsonView::Object(state)) => put(
            rest,
            "state"@,
            JsonView::Object(without(state, "playback_state_path"@)),
        ),
        _ => rest,
    }
}

/// The entries with the first `n` of others put over them.
pub open spec fn overlaid(
    entries: Seq<(Seq<char>, JsonView)>,
    others: Seq<(Seq<char>, JsonView)>,
    n: nat,
) -> Seq<(Seq<char>, JsonView)>
    decreases n,
{
    if n == 0 {
        entries
    } else {
        put(overlaid(entries, others, (n - 1) as nat), others[n - 1].0, others[n - 1].1)
    }
}

/// The stored sections with the submitted ones in place of their own, without
/// what is not stored.
pub open spec fn merged_sections(
    current: Seq<(Seq<char>, JsonView)>,
    submitted: Seq<(Seq<char>, JsonView)>,
) -> Seq<(Seq<char>, JsonView)> {
    stripped(overlaid(current, submitted, submitted.len()))
}

proof fn lemma_stripped(entries: Seq<(Seq<char>, JsonView)>, key: Seq<char>)
    ensures
        lookup(stripped(entries), "http"@) is None,
        lookup(stripped(entries), "logging"@) is None,
        key != "http"@ && key != "logging"@ && key != "state"@ ==> lookup(stripped(entries), key)
            == lookup(entries, key),
        lookup(stripped(entries), "state"@) == match lookup(entries, "state"@) {
            Some(JsonView::Object(state)) => Some(
                JsonView::Object(without(state, "playback_state_path"@)),
            ),
            other => other,
        },
{
    reveal_strlit("http");
    reveal_strlit("logging");
    reveal_strlit("state");
    assert("http"@[0] == 'h');
    assert("logging"@[0] == 'l');
    assert("state"@[0] == 's');
    let first = without(entries, "http"@);
    let rest = without(first, "logging"@);
    law_without_then_lookup(entries, "http"@, key);
    law_without_then_lookup(entries, "http"@, "state"@);
    law_without_then_lookup(first, "logging"@, key);
    law_without_then_lookup(first, "logging"@, "http"@);
    law_without_then_lookup(first, "logging"@, "state"@);
    match lookup(rest, "state"@) {
        Some(JsonView::Object(state)) => {
            let cut = JsonView::Object(without(state, "playback_state_path"@));
            law_put_then_lookup(rest, "state"@, cut, key);
            law_put_then_lookup(rest, "state"@, cut, "http"@);
            law_put_then_lookup(rest, "state"@, cut, "logging"@);
        },
        _ => {},
    }
}

proof fn lemma_overlaid(
    entries: Seq<(Seq<char>, JsonView)>,
    others: Seq<(Seq<char>, JsonView)>,
    n: nat,
    key: Seq<char>,
)
    requires
        n <= others.len(),
        keys_ascend(others),
    ensures
        lookup(overlaid(entries, others, n), key) == match lookup(others.take(n as int), key) {
            Some(v) => Some(v),
            None => lookup(entries, key),
        },
    decreases n,
{
    if n > 0 {
        let m = (n - 1) as nat;
        lemma_overlaid(entries, others, m, key);
        let earlier = overlaid(entries, others, m);
        law_put_then_lookup(earlier, others[m as int].0, others[m as int].1, key);
        let taken = others.take(n as int);
        let fewer = others.take(m as int);
        if others[m as int].0 == key {
            assert forall|j: int| 0 <= j < m implies taken[j].0 != key by {
                lemma_ascending_differ(others, j, m as int);
            }
            lemma_lookup_at(taken, key, m as int);
        } else if lookup(fewer, key) is Some {
            let at = lemma_lookup_index(fewer, key);
            assert forall|j: int| 0 <= j < at implies taken[j].0 != key by {
                lemma_ascending_differ(others, j, at);
            }
            assert(taken[at] == fewer[at]);
            lemma_lookup_at(taken, key, at);
        } else {
            assert forall|j: int| 0 <= j < taken.len() implies taken[j].0 != key by {
                if j < m && taken[j].0 == key {
                    assert forall|i: int| 0 <= i < j implies fewer[i].0 != key by {
                        lemma_ascending_differ(others, i, j);
                    }
                    assert(fewer[j] == taken[j]);
                    lemma_lookup_at(fewer, key, j);
                }
            }
            lemma_lookup_none(taken, key);
        }
    } else {
        assert(others.take(0).len() == 0);
    }
}

/// What is stored of a section: nothing of `http` and `logging`, and of the state
/// all but the path of the database.
pub open spec fn stored_part(key: Seq<char>, section: Option<JsonView>) -> Option<JsonView> {
    if key == "http"@ || key == "logging"@ {
        None
    } else if key == "state"@ {
        match section {
            Some(JsonView::Object(state)) => Some(
                JsonView::Object(without(state, "playback_state_path"@)),
            ),
            other => other,
        }
    } else {
        section
    }
}

/// What a merge holds of a section: what is stored of it, as it was submitted or
/// else as it was.
pub proof fn law_merge(
    current: Seq<(Seq<char>, JsonView)>,
    submitted: Seq<(Seq<char>, JsonView)>,
    key: Seq<char>,
)
    requires
        keys_ascend(submitted),
    ensures
        lookup(merged_sections(current, submitted), key) == stored_part(
            key,
            match lookup(submitted, key) {
                Some(v) => Some(v),
                None => lookup(current, key),
            },
        ),
{
    let whole = overlaid(current, submitted, submitted.len());
    assert(submitted.take(submitted.len() as int) =~= submitted);
    lemma_overlaid(current, submitted, submitted.len(), key);
    lemma_stripped(whole, key);
}

/// A copy of entries.
pub fn copy_entries(entries: &Vec<(String, Json)>) -> (r: Vec<(String, Json)>)
    ensures
        entries_view(r@) == entries_view(entries@),
{
    let mut out: Vec<(String, Json)> = Vec::new();
    let mut i: usize = 0;
    while i < entries.len()
        invariant
            i <= entries@.len(),
            out@.len() == i,
            forall|k: int|
                0 <= k < i ==> (#[trigger] out@[k]).0@ == entries@[k].0@ && out@[k].1@
                    == entries@[k].1@,
        decreases entries@.len() - i,
    {
        out.push((entries[i].0.clone(), copy_json(&entries[i].1)));
        i = i + 1;
    }
    assert(entries_view(out@) =~= entries_view(entries@));
    out
}

/// Takes out what is not stored.
pub fn strip_injected(entries: &mut Vec<(String, Json)>)
    requires
        ordered(JsonView::Object(entries_view(old(entries)@))),
    ensures
        entries_view(final(entries)@) == stripped(entries_view(old(entries)@)),
        ordered(JsonView::Object(entries_view(final(entries)@))),
{
    let ghost start = entries_view(entries@);
    proof {
        lemma_without_ordered(start, "http"@);
        lemma_without_ordered(without(start, "http"@), "logging"@);
    }
    remove(entries, "http");
    remove(entries, "logging");
    let ghost rest = entries_view(entries@);
    match position(entries, "state") {
        Some(i) => {
            assert(ordered(rest[i as int].1));
            proof {
                if entries@[i as int].1 is Object {
                    lemma_object_view(entries@[i as int].1->Object_0);
                }
            }
            let mut held = Json::Null;
            core::mem::swap(&mut held, &mut entries[i].1);
            match held {
                Json::Object(found) => {
                    let mut state = found;
                    proof {
                        lemma_without_ordered(entries_view(state@), "playback_state_path"@);
                    }
                    remove(&mut state, "playback_state_path");
                    entries[i].1 = Json::Object(state);
                    proof {
                        lemma_object_view(state);
                        lemma_put_at(rest, "state"@, Json::Object(state)@, i as int);
                        lemma_put_ordered(rest, "state"@, Json::Object(state)@);
                        assert(entries_view(entries@) =~= put(
                            rest,
                            "state"@,
                            Json::Object(state)@,
                        ));
                    }
                },
                other => {
                    entries[i].1 = other;
                    assert(entries_view(entries@) =~= rest);
                },
            }
        },
        None => {},
    }
}

/// Puts the submitted sections over the stored ones, and takes out what is not
/// stored.
pub fn merge_sections(
    current: &Vec<(String, Json)>,
    submitted: &Vec<(String, Json)>,
) -> (r: Vec<(String, Json)>)
    requires
        ordered(JsonView::Object(entries_view(current@))),
        ordered(JsonView::Object(entries_view(submitted@))),
    ensures
        entries_view(r@) == merged_sections(entries_view(current@), entries_view(submitted@)),
        ordered(JsonView::Object(entries_view(r@))),
{
    let mut merged = copy_entries(current);
    let mut i: usize = 0;
    let ghost others = entries_view(submitted@);
    while i < submitted.len()
        invariant
            i <= submitted@.len(),
            others == entries_view(submitted@),
            ordered(JsonView::Object(others)),
            ordered(JsonView::Object(entries_view(merged@))),
            entries_view(merged@) == overlaid(entries_view(current@), others, i as nat),
        decreases submitted@.len() - i,
    {
        let value = copy_json(&submitted[i].1);
        proof {
            assert(others[i as int] == (submitted@[i as int].0@, value@));
            assert(ordered(others[i as int].1));
            lemma_put_ordered(entries_view(merged@), submitted@[i as int].0@, value@);
        }
        insert(&mut merged, submitted[i].0.as_str(), value);
        i = i + 1;
    }
    strip_injected(&mut merged);
    merged
}

// ---------------------------------------------------------------------------
// Defaults
// ---------------------------------------------------------------------------
/// A value with the defaults for what it lacks. What it has stays, null too.
pub open spec fn filled(current: JsonView, defaults: JsonView) -> JsonView
    decreases defaults,
{
    match (current, defaults) {
        (JsonView::Object(entries), JsonView::Object(others)) => JsonView::Object(
            filled_entries(entries, others),
        ),
        _ => current,
    }
}

/// Entries with the defaults for what they lack.
pub open spec fn filled_entries(
    entries: Seq<(Seq<char>, JsonView)>,
    defaults: Seq<(Seq<char>, JsonView)>,
) -> Seq<(Seq<char>, JsonView)>
    decreases defaults,
{
    if defaults.len() == 0 {
        entries
    } else {
        let key = defaults[defaults.len() - 1].0;
        let default = defaults[defaults.len() - 1].1;
        let earlier = filled_entries(entries, defaults.subrange(0, defaults.len() - 1));
        match lookup(earlier, key) {
            Some(value) => put(earlier, key, filled(value, default)),
            None => put(earlier, key, default),
        }
    }
}

/// What stands under a key once defaults are filled in: what was there, filled
/// in itself where it and the default are objects; the default where nothing
/// was there.
pub proof fn law_fill(
    entries: Seq<(Seq<char>, JsonView)>,
    defaults: Seq<(Seq<char>, JsonView)>,
    key: Seq<char>,
)
    requires
        keys_ascend(defaults),
    ensures
        lookup(filled_entries(entries, defaults), key) == match (
            lookup(entries, key),
            lookup(defaults, key),
        ) {
            (Some(value), Some(default)) => Some(filled(value, default)),
            (Some(value), None) => Some(value),
            (None, other) => other,
        },
    decreases defaults.len(),
{
    if defaults.len() > 0 {
        let last = defaults.len() - 1;
        let fewer = defaults.subrange(0, last);
        let earlier = filled_entries(entries, fewer);
        let own = defaults[last].0;
        assert forall|i: int, j: int| 0 <= i < j < fewer.len() implies before(
            fewer[i].0,
            fewer[j].0,
        ) by {
            assert(before(defaults[i].0, defaults[j].0));
        }
        law_fill(entries, fewer, key);
        law_fill(entries, fewer, own);
        assert forall|j: int| 0 <= j < last implies defaults[j].0 != own by {
            lemma_ascending_differ(defaults, j, last);
        }
        assert forall|j: int| 0 <= j < fewer.len() implies fewer[j].0 != own by {
            assert(fewer[j] == defaults[j]);
        }
        lemma_lookup_none(fewer, own);
        lemma_lookup_at(defaults, own, last);
        let put_there = match lookup(earlier, own) {
            Some(value) => filled(value, defaults[last].1),
            None => defaults[last].1,
        };
        law_put_then_lookup(earlier, own, put_there, key);
        if key != own {
            if lookup(fewer, key) is Some {
                let at = lemma_lookup_index(fewer, key);
                assert(defaults[at] == fewer[at]);
                assert forall|j: int| 0 <= j < at implies defaults[j].0 != key by {
                    lemma_ascending_differ(defaults, j, at);
                }
                lemma_lookup_at(defaults, key, at);
            } else {
                assert forall|j: int| 0 <= j < defaults.len() implies defaults[j].0 != key by {
                    if j < last && defaults[j].0 == key {
                        assert(fewer[j] == defaults[j]);
                        assert forall|i: int| 0 <= i < j implies fewer[i].0 != key by {
                            lemma_ascending_differ(defaults, i, j);
                            assert(fewer[i] == defaults[i]);
                        }
                        lemma_lookup_at(fewer, key, j);
                    }
                }
                lemma_lookup_none(defaults, key);
            }
        }
    }
}

/// Where a path leads to something, it still does once defaults are filled in.
pub proof fn lemma_filled_is_found(
    entries: Seq<(Seq<char>, JsonView)>,
    defaults: Seq<(Seq<char>, JsonView)>,
    path: Seq<Seq<char>>,
)
    requires
        ordered(JsonView::Object(defaults)),
        path_value(entries, path) is Some,
    ensures
        path_value(filled_entries(entries, defaults), path) is Some,
    decreases path.len(),
{
    law_fill(entries, defaults, path[0]);
    if path.len() > 1 {
        match (lookup(entries, path[0]), lookup(defaults, path[0])) {
            (Some(JsonView::Object(inner)), Some(JsonView::Object(others))) => {
                let at = lemma_lookup_index(defaults, path[0]);
                assert(ordered(defaults[at].1));
                lemma_filled_is_found(inner, others, path.drop_first());
            },
            _ => {},
        }
    }
}

/// Filling in keeps the keys in order.
pub proof fn lemma_filled_ordered(current: JsonView, defaults: JsonView)
    requires
        ordered(current),
        ordered(defaults),
    ensures
        ordered(filled(current, defaults)),
    decreases defaults,
{
    match (current, defaults) {
        (JsonView::Object(entries), JsonView::Object(others)) => {
            lemma_filled_entries_ordered(entries, others);
        },
        _ => {},
    }
}

proof fn lemma_filled_entries_ordered(
    entries: Seq<(Seq<char>, JsonView)>,
    defaults: Seq<(Seq<char>, JsonView)>,
)
    requires
        ordered(JsonView::Object(entries)),
        forall|i: int| 0 <= i < defaults.len() ==> ordered((#[trigger] defaults[i]).1),
    ensures
        ordered(JsonView::Object(filled_entries(entries, defaults))),
    decreases defaults,
{
    if defaults.len() > 0 {
        let last = defaults.len() - 1;
        let fewer = defaults.subrange(0, last);
        assert forall|i: int| 0 <= i < fewer.len() implies ordered((#[trigger] fewer[i]).1) by {
            assert(fewer[i] == defaults[i]);
        }
        lemma_filled_entries_ordered(entries, fewer);
        let earlier = filled_entries(entries, fewer);
        let own = defaults[last].0;
        assert(ordered(defaults[last].1));
        match lookup(earlier, own) {
            Some(value) => {
                let at = lemma_lookup_index(earlier, own);
                assert(ordered(earlier[at].1));
                lemma_filled_ordered(value, defaults[last].1);
                lemma_put_ordered(earlier, own, filled(value, defaults[last].1));
            },
            None => {
                lemma_put_ordered(earlier, own, defaults[last].1);
            },
        }
    }
}

/// Fills in the defaults for what a value lacks.
pub fn fill_missing_defaults(current: &mut Json, defaults: &Json)
    requires
        ordered(old(current)@),
        ordered(defaults@),
    ensures
        final(current)@ == filled(old(current)@, defaults@),
        ordered(final(current)@),
    decreases *defaults,
{
    proof {
        lemma_filled_ordered(current@, defaults@);
    }
    match defaults {
        Json::Object(others) => {
            proof {
                lemma_object_view(*others);
            }
            let mut held = Json::Null;
            core::mem::swap(&mut held, current);
            match held {
                Json::Object(found) => {
                    let mut entries = found;
                    let ghost start = entries_view(entries@);
                    let ghost all = entries_view(others@);
                    proof {
                        lemma_object_view(found);
                        assert(all.subrange(0, 0) =~= Seq::empty());
                    }
                    let mut i: usize = 0;
                    while i < others.len()
                        invariant
                            i <= others@.len(),
                            all == entries_view(others@),
                            ordered(JsonView::Object(all)),
                            ordered(JsonView::Object(start)),
                            *defaults == Json::Object(*others),
                            entries_view(entries@) == filled_entries(
                                start,
                                all.subrange(0, i as int),
                            ),
                            ordered(JsonView::Object(entries_view(entries@))),
                        decreases others@.len() - i,
                    {
                        let ghost here = entries_view(entries@);
                        let ghost more = all.subrange(0, i + 1);
                        proof {
                            assert(more.subrange(0, i as int) =~= all.subrange(0, i as int));
                            assert(more[i as int] == (others@[i as int].0@, others@[i as int].1@));
                            assert(ordered(all[i as int].1));
                        }
                        let key = others[i].0.as_str();
                        match position(&entries, key) {
                            Some(at) => {
                                proof {
                                    assert(ordered(here[at as int].1));
                                    lemma_entry_smaller(*defaults, i as int);
                                }
                                fill_missing_defaults(&mut entries[at].1, &others[i].1);
                                proof {
                                    let value = entries@[at as int].1@;
                                    lemma_put_at(here, key@, value, at as int);
                                    lemma_put_ordered(here, key@, value);
                                    assert(entries_view(entries@) =~= put(here, key@, value));
                                }
                            },
                            None => {
                                let value = copy_json(&others[i].1);
                                proof {
                                    lemma_put_ordered(here, key@, value@);
                                }
                                insert(&mut entries, key, value);
                            },
                        }
                        i = i + 1;
                    }
                    proof {
                        lemma_object_view(entries);
                        assert(all.subrange(0, all.len() as int) =~= all);
                    }
                    *current = Json::Object(entries);
                },
                other => {
                    *current = other;
                },
            }
        },
        _ => {},
    }
}

// ---------------------------------------------------------------------------
// Changes
// ---------------------------------------------------------------------------
/// The paths at which two values differ, in order of the keys. Arrays are
/// compared as a whole.
pub open spec fn changed(current: JsonView, candidate: JsonView, path: Seq<char>) -> Seq<Seq<char>>
    decreases current, 0nat,
{
    match (current, candidate) {
        (JsonView::Object(old_entries), JsonView::Object(new_entries)) => changed_entries(
            old_entries,
            new_entries,
            path,
        ),
        _ => if current != candidate {
            seq![path]
        } else {
            Seq::empty()
        },
    }
}

/// The paths at which the entries of two objects differ, in order of the keys.
pub open spec fn changed_entries(
    old_entries: Seq<(Seq<char>, JsonView)>,
    new_entries: Seq<(Seq<char>, JsonView)>,
    path: Seq<char>,
) -> Seq<Seq<char>>
    decreases old_entries, new_entries.len(),
{
    if old_entries.len() == 0 && new_entries.len() == 0 {
        Seq::empty()
    } else if new_entries.len() == 0 || (old_entries.len() > 0 && before(
        old_entries[0].0,
        new_entries[0].0,
    )) {
        seq![child_path(path, old_entries[0].0)] + changed_entries(
            old_entries.subrange(1, old_entries.len() as int),
            new_entries,
            path,
        )
    } else if old_entries.len() == 0 || old_entries[0].0 != new_entries[0].0 {
        seq![child_path(path, new_entries[0].0)] + changed_entries(
            old_entries,
            new_entries.drop_first(),
            path,
        )
    } else {
        changed(old_entries[0].1, new_entries[0].1, child_path(path, old_entries[0].0))
            + changed_entries(
            old_entries.subrange(1, old_entries.len() as int),
            new_entries.drop_first(),
            path,
        )
    }
}

/// Two values are the same exactly where no path is told as changed.
pub proof fn law_no_change(current: JsonView, candidate: JsonView, path: Seq<char>)
    ensures
        changed(current, candidate, path).len() == 0 <==> current == candidate,
    decreases current, 0nat,
{
    match (current, candidate) {
        (JsonView::Object(old_entries), JsonView::Object(new_entries)) => {
            lemma_no_change_entries(old_entries, new_entries, path);
        },
        _ => {},
    }
}

proof fn lemma_no_change_entries(
    old_entries: Seq<(Seq<char>, JsonView)>,
    new_entries: Seq<(Seq<char>, JsonView)>,
    path: Seq<char>,
)
    ensures
        changed_entries(old_entries, new_entries, path).len() == 0 <==> old_entries == new_entries,
    decreases old_entries, new_entries.len(),
{
    if old_entries.len() == 0 && new_entries.len() == 0 {
        assert(old_entries =~= new_entries);
    } else if old_entries.len() > 0 && new_entries.len() > 0 {
        if before(old_entries[0].0, new_entries[0].0) {
            lemma_before_irreflexive(old_entries[0].0);
        } else if old_entries[0].0 == new_entries[0].0 {
            let old_rest = old_entries.subrange(1, old_entries.len() as int);
            let new_rest = new_entries.drop_first();
            law_no_change(
                old_entries[0].1,
                new_entries[0].1,
                child_path(path, old_entries[0].0),
            );
            lemma_no_change_entries(old_rest, new_rest, path);
            if old_rest == new_rest && old_entries[0] == new_entries[0] {
                assert(old_entries =~= seq![old_entries[0]] + old_rest);
                assert(new_entries =~= seq![new_entries[0]] + new_rest);
            }
            if old_entries == new_entries {
                assert(old_rest =~= new_rest);
            }
        }
    }
}

/// Adds the paths at which two values differ.
pub fn collect_changed_paths(
    current: &Json,
    candidate: &Json,
    prefix: &str,
    out: &mut Vec<String>,
)
    requires
        ordered(current@),
        ordered(candidate@),
    ensures
        string_views(final(out)@) == string_views(old(out)@) + changed(
            current@,
            candidate@,
            prefix@,
        ),
    decreases *current,
{
    let ghost start = string_views(out@);
    match (current, candidate) {
        (Json::Object(x), Json::Object(y)) => {
            proof {
                lemma_object_view(*x);
                lemma_object_view(*y);
            }
            let ghost xs = entries_view(x@);
            let ghost ys = entries_view(y@);
            let mut i: usize = 0;
            let mut j: usize = 0;
            proof {
                assert(xs.skip(0) =~= xs);
                assert(ys.skip(0) =~= ys);
                assert(ordered(JsonView::Object(xs)));
                assert(ordered(JsonView::Object(ys)));
            }
            while i < x.len() || j < y.len()
                invariant
                    i <= x@.len(),
                    j <= y@.len(),
                    xs == entries_view(x@),
                    ys == entries_view(y@),
                    *current == Json::Object(*x),
                    ordered(JsonView::Object(xs)),
                    ordered(JsonView::Object(ys)),
                    start + changed_entries(xs, ys, prefix@) == string_views(out@)
                        + changed_entries(xs.skip(i as int), ys.skip(j as int), prefix@),
                decreases (x@.len() - i) + (y@.len() - j),
            {
                let ghost so_far = string_views(out@);
                let ghost rest_x = xs.skip(i as int);
                let ghost rest_y = ys.skip(j as int);
                proof {
                    if i < x@.len() {
                        assert(rest_x[0] == (x@[i as int].0@, x@[i as int].1@));
                        assert(rest_x.subrange(1, rest_x.len() as int) =~= xs.skip(i + 1));
                    }
                    if j < y@.len() {
                        assert(rest_y[0] == (y@[j as int].0@, y@[j as int].1@));
                        assert(rest_y.drop_first() =~= ys.skip(j + 1));
                    }
                }
                let order = if i == x.len() {
                    KeyOrder::Behind
                } else if j == y.len() {
                    KeyOrder::Before
                } else {
                    order_keys(x[i].0.as_str(), y[j].0.as_str())
                };
                match order {
                    KeyOrder::Before => {
                        let path = join_path(prefix, x[i].0.as_str());
                        out.push(path);
                        proof {
                            assert(string_views(out@) =~= so_far.push(path@));
                            assert(start + changed_entries(xs, ys, prefix@) =~= string_views(out@)
                                + changed_entries(xs.skip(i + 1), rest_y, prefix@));
                        }
                        i = i + 1;
                    },
                    KeyOrder::Behind => {
                        let path = join_path(prefix, y[j].0.as_str());
                        out.push(path);
                        proof {
                            if i < x@.len() {
                                if before(rest_x[0].0, rest_y[0].0) {
                                    lemma_before_transitive(
                                        rest_x[0].0,
                                        rest_y[0].0,
                                        rest_x[0].0,
                                    );
                                }
                                lemma_before_irreflexive(rest_x[0].0);
                            }
                            assert(string_views(out@) =~= so_far.push(path@));
                            assert(start + changed_entries(xs, ys, prefix@) =~= string_views(out@)
                                + changed_entries(rest_x, ys.skip(j + 1), prefix@));
                        }
                        j = j + 1;
                    },
                    KeyOrder::Same => {
                        let path = join_path(prefix, x[i].0.as_str());
                        proof {
                            assert(ordered(xs[i as int].1));
                            assert(ordered(ys[j as int].1));
                            lemma_before_irreflexive(rest_x[0].0);
                            lemma_entry_smaller(*current, i as int);
                        }
                        collect_changed_paths(&x[i].1, &y[j].1, path.as_str(), out);
                        proof {
                            assert(start + changed_entries(xs, ys, prefix@) =~= string_views(out@)
                                + changed_entries(xs.skip(i + 1), ys.skip(j + 1), prefix@));
                        }
                        i = i + 1;
                        j = j + 1;
                    },
                }
            }
            proof {
                assert(changed_entries(xs.skip(i as int), ys.skip(j as int), prefix@)
                    =~= Seq::<Seq<char>>::empty());
                assert(string_views(out@) =~= start + changed_entries(xs, ys, prefix@));
            }
        },
        _ => {
            if !equal(current, candidate) {
                out.push(owned(prefix));
                proof {
                    assert(string_views(out@) =~= start + seq![prefix@]);
                }
            } else {
                proof {
                    assert(string_views(out@) =~= start + Seq::<Seq<char>>::empty());
                }
            }
        },
    }
}

// ---------------------------------------------------------------------------
// What cannot be changed
// ---------------------------------------------------------------------------
/// What stands under a key of a section.
pub open spec fn section_field(
    entries: Seq<(Seq<char>, JsonView)>,
    section: Seq<char>,
    field: Seq<char>,
) -> Option<JsonView> {
    match lookup(entries, section) {
        Some(JsonView::Object(inner)) => lookup(inner, field),
        _ => None,
    }
}

/// The fields that are set when the program starts, and cannot be changed here.
pub open spec fn immutable_fields() -> Seq<(Seq<char>, Seq<char>)> {
    seq![
        ("playback"@, "login_helper_executable"@),
        ("startup"@, "exe_path"@),
        ("startup"@, "game_args"@),
    ]
}

/// The error of a field that cannot be changed.
pub open spec fn immutable_error(section: Seq<char>, field: Seq<char>) -> FieldErrorView {
    FieldErrorView {
        section,
        field: section + "."@ + field,
        message: section + "."@ + field
            + " 由 config.yaml 启动固化，Web 面板不可修改；请直接编辑 config.yaml 后重启"@,
    }
}

/// The errors of the first `n` fields that cannot be changed and are.
pub open spec fn immutable_errors(
    current: Seq<(Seq<char>, JsonView)>,
    merged: Seq<(Seq<char>, JsonView)>,
    n: nat,
) -> Seq<FieldErrorView>
    decreases n,
{
    if n == 0 {
        Seq::empty()
    } else {
        let earlier = immutable_errors(current, merged, (n - 1) as nat);
        let (section, field) = immutable_fields()[n - 1];
        if section_field(current, section, field) != section_field(merged, section, field) {
            earlier.push(immutable_error(section, field))
        } else {
            earlier
        }
    }
}

fn find_section_field<'a>(
    entries: &'a Vec<(String, Json)>,
    section: &str,
    field: &str,
) -> (r: Option<&'a Json>)
    ensures
        match r {
            Some(v) => section_field(entries_view(entries@), section@, field@) == Some(v@),
            None => section_field(entries_view(entries@), section@, field@) is None,
        },
{
    match get(entries, section) {
        Some(Json::Object(inner)) => {
            proof {
                lemma_object_view(*inner);
            }
            get(inner, field)
        },
        _ => None,
    }
}

/// Whether a field has the same value in two configurations.
fn same_section_field(
    current: &Vec<(String, Json)>,
    merged: &Vec<(String, Json)>,
    section: &str,
    field: &str,
) -> (r: bool)
    ensures
        r == (section_field(entries_view(current@), section@, field@) == section_field(
            entries_view(merged@),
            section@,
            field@,
        )),
{
    match (
        find_section_field(current, section, field),
        find_section_field(merged, section, field),
    ) {
        (Some(a), Some(b)) => equal(a, b),
        (None, None) => true,
        _ => false,
    }
}

/// The errors of the fields that cannot be changed and are.
pub fn immutable_bootstrap_field_conflicts(
    current: &Vec<(String, Json)>,
    merged: &Vec<(String, Json)>,
) -> (r: Vec<ConfigFieldError>)
    ensures
        error_views(r@) == immutable_errors(
            entries_view(current@),
            entries_view(merged@),
            immutable_fields().len(),
        ),
{
    let mut errors: Vec<ConfigFieldError> = Vec::new();
    let mut k: usize = 0;
    assert(error_views(errors@) =~= Seq::empty());
    while k < 3
        invariant
            k <= 3,
            error_views(errors@) == immutable_errors(
                entries_view(current@),
                entries_view(merged@),
                k as nat,
            ),
        decreases 3 - k,
    {
        let section = if k == 0 {
            "playback"
        } else {
            "startup"
        };
        let field = if k == 0 {
            "login_helper_executable"
        } else if k == 1 {
            "exe_path"
        } else {
            "game_args"
        };
        assert(immutable_fields()[k as int] == (section@, field@));
        if !same_section_field(current, merged, section, field) {
            let ghost so_far = error_views(errors@);
            let error = ConfigFieldError {
                section: owned(section),
                field: cat3(section, ".", field),
                message: cat4(
                    section,
                    ".",
                    field,
                    " 由 config.yaml 启动固化，Web 面板不可修改；请直接编辑 config.yaml 后重启",
                ),
            };
            assert(error@ =~= immutable_error(section@, field@));
            errors.push(error);
            assert(error_views(errors@) =~= so_far.push(error@));
        }
        k = k + 1;
    }
    errors
}

// ---------------------------------------------------------------------------
// What a save and the defaults do
// ---------------------------------------------------------------------------
/// A section that is submitted takes the place of the stored one, and one that is not
/// submitted stays; `http` and `logging` are never stored, and of the state all but
/// the path of the database is.
pub proof fn law_submitted_sections(
    current: Seq<(Seq<char>, JsonView)>,
    submitted: Seq<(Seq<char>, JsonView)>,
    key: Seq<char>,
    field: Seq<char>,
)
    requires
        keys_ascend(submitted),
    ensures
        key != "http"@ && key != "logging"@ && key != "state"@ && lookup(submitted, key) is Some
            ==> lookup(merged_sections(current, submitted), key) == lookup(submitted, key),
        key != "http"@ && key != "logging"@ && key != "state"@ && lookup(submitted, key) is None
            ==> lookup(merged_sections(current, submitted), key) == lookup(current, key),
        lookup(merged_sections(current, submitted), "http"@) is None,
        lookup(merged_sections(current, submitted), "logging"@) is None,
        lookup(submitted, "state"@) matches Some(JsonView::Object(state)) ==> {
            &&& lookup(merged_sections(current, submitted), "state"@) matches Some(
                JsonView::Object(after),
            )
            &&& lookup(after, "playback_state_path"@) is None
            &&& field != "playback_state_path"@ ==> lookup(after, field) == lookup(state, field)
        },
{
    law_merge(current, submitted, key);
    law_merge(current, submitted, "http"@);
    law_merge(current, submitted, "logging"@);
    law_merge(current, submitted, "state"@);
    reveal_strlit("http");
    reveal_strlit("logging");
    reveal_strlit("state");
    assert("http"@[0] == 'h' && "logging"@[0] == 'l' && "state"@[0] == 's');
    match lookup(submitted, "state"@) {
        Some(JsonView::Object(state)) => {
            law_without_then_lookup(state, "playback_state_path"@, field);
            law_without_then_lookup(state, "playback_state_path"@, "playback_state_path"@);
        },
        _ => {},
    }
}

/// What is there stays when defaults are filled in: a text, a number, a list, a truth
/// value and null at any path.
pub proof fn law_fill_keeps_what_is_there(
    entries: Seq<(Seq<char>, JsonView)>,
    defaults: Seq<(Seq<char>, JsonView)>,
    path: Seq<Seq<char>>,
)
    requires
        ordered(JsonView::Object(defaults)),
        path_value(entries, path) is Some,
        path_value(entries, path)->0 !is Object,
    ensures
        path_value(filled_entries(entries, defaults), path) == path_value(entries, path),
    decreases path.len(),
{
    law_fill(entries, defaults, path[0]);
    if path.len() > 1 {
        match (lookup(entries, path[0]), lookup(defaults, path[0])) {
            (Some(JsonView::Object(inner)), Some(JsonView::Object(others))) => {
                let at = lemma_lookup_index(defaults, path[0]);
                assert(ordered(defaults[at].1));
                law_fill_keeps_what_is_there(inner, others, path.drop_first());
            },
            _ => {},
        }
    }
}

/// What is missing in an object that is there becomes the default, and only that does.
pub proof fn law_fill_adds_what_is_missing(
    entries: Seq<(Seq<char>, JsonView)>,
    defaults: Seq<(Seq<char>, JsonView)>,
    path: Seq<Seq<char>>,
)
    requires
        ordered(JsonView::Object(defaults)),
        path.len() > 0,
        path_value(entries, path) is None,
        path.len() > 1 ==> (path_value(entries, path.drop_last()) matches Some(value)
            && value is Object),
        path.len() > 1 ==> (path_value(defaults, path.drop_last()) matches Some(value)
            && value is Object),
    ensures
        path_value(filled_entries(entries, defaults), path) == path_value(defaults, path),
    decreases path.len(),
{
    law_fill(entries, defaults, path[0]);
    if path.len() > 1 {
        let short = path.drop_last();
        let rest = path.drop_first();
        assert(short[0] == path[0]);
        match (lookup(entries, path[0]), lookup(defaults, path[0])) {
            (Some(JsonView::Object(inner)), Some(JsonView::Object(others))) => {
                let at = lemma_lookup_index(defaults, path[0]);
                assert(ordered(defaults[at].1));
                assert(rest.drop_last() =~= short.drop_first());
                law_fill_adds_what_is_missing(inner, others, rest);
            },
            _ => {
                if path.len() == 2 {
                    assert(short =~= seq![path[0]]);
                }
            },
        }
    }
}

proof fn lemma_ascending_rest(entries: Seq<(Seq<char>, JsonView)>, key: Seq<char>)
    requires
        keys_ascend(entries),
        entries.len() > 0,
    ensures
        keys_ascend(entries.drop_first()),
        entries.subrange(1, entries.len() as int) == entries.drop_first(),
        key != entries[0].0 ==> lookup(entries, key) == lookup(entries.drop_first(), key),
        key == entries[0].0 || before(key, entries[0].0) ==> lookup(
            entries.drop_first(),
            key,
        ) is None,
        before(key, entries[0].0) ==> lookup(entries, key) is None,
{
    let rest = entries.drop_first();
    assert(entries.subrange(1, entries.len() as int) =~= rest);
    assert forall|i: int, j: int| 0 <= i < j < rest.len() implies before(rest[i].0, rest[j].0) by {
        assert(before(entries[i + 1].0, entries[j + 1].0));
    }
    if key == entries[0].0 || before(key, entries[0].0) {
        assert forall|j: int| 0 <= j < rest.len() implies rest[j].0 != key by {
            assert(before(entries[0].0, entries[j + 1].0));
            lemma_before_irreflexive(key);
            if before(key, entries[0].0) {
                lemma_before_transitive(key, entries[0].0, rest[j].0);
            }
        }
        lemma_lookup_none(rest, key);
    }
    lemma_before_irreflexive(key);
}

/// A key that only one of two objects has is told as changed, and where both have it
/// all is told that is changed below it.
pub proof fn law_changes_are_told(
    old_entries: Seq<(Seq<char>, JsonView)>,
    new_entries: Seq<(Seq<char>, JsonView)>,
    path: Seq<char>,
    key: Seq<char>,
    told: Seq<char>,
)
    requires
        keys_ascend(old_entries),
        keys_ascend(new_entries),
    ensures
        lookup(old_entries, key) is Some != lookup(new_entries, key) is Some ==> changed_entries(
            old_entries,
            new_entries,
            path,
        ).contains(child_path(path, key)),
        lookup(old_entries, key) is Some && lookup(new_entries, key) is Some && changed(
            lookup(old_entries, key)->0,
            lookup(new_entries, key)->0,
            child_path(path, key),
        ).contains(told) ==> changed_entries(old_entries, new_entries, path).contains(told),
    decreases old_entries.len() + new_entries.len(),
{
    if old_entries.len() == 0 && new_entries.len() == 0 {
    } else if new_entries.len() == 0 || (old_entries.len() > 0 && before(
        old_entries[0].0,
        new_entries[0].0,
    )) {
        let rest = old_entries.subrange(1, old_entries.len() as int);
        let first = seq![child_path(path, old_entries[0].0)];
        lemma_ascending_rest(old_entries, key);
        law_changes_are_told(rest, new_entries, path, key, told);
        if new_entries.len() > 0 {
            lemma_ascending_rest(new_entries, old_entries[0].0);
        }
        lemma_contains_sum(first, changed_entries(rest, new_entries, path), told);
        lemma_contains_sum(
            first,
            changed_entries(rest, new_entries, path),
            child_path(path, key),
        );
        assert(first[0] == child_path(path, old_entries[0].0));
    } else if old_entries.len() == 0 || old_entries[0].0 != new_entries[0].0 {
        let rest = new_entries.drop_first();
        let first = seq![child_path(path, new_entries[0].0)];
        lemma_ascending_rest(new_entries, key);
        law_changes_are_told(old_entries, rest, path, key, told);
        if old_entries.len() > 0 {
            lemma_before_connected(old_entries[0].0, new_entries[0].0);
            lemma_ascending_rest(old_entries, new_entries[0].0);
        }
        lemma_contains_sum(first, changed_entries(old_entries, rest, path), told);
        lemma_contains_sum(
            first,
            changed_entries(old_entries, rest, path),
            child_path(path, key),
        );
        assert(first[0] == child_path(path, new_entries[0].0));
    } else {
        let old_rest = old_entries.subrange(1, old_entries.len() as int);
        let new_rest = new_entries.drop_first();
        lemma_ascending_rest(old_entries, key);
        lemma_ascending_rest(new_entries, key);
        law_changes_are_told(old_rest, new_rest, path, key, told);
        let first = changed(
            old_entries[0].1,
            new_entries[0].1,
            child_path(path, old_entries[0].0),
        );
        lemma_contains_sum(first, changed_entries(old_rest, new_rest, path), told);
        lemma_contains_sum(
            first,
            changed_entries(old_rest, new_rest, path),
            child_path(path, key),
        );
    }
}

proof fn lemma_contains_sum(a: Seq<Seq<char>>, b: Seq<Seq<char>>, x: Seq<char>)
    ensures
        (a + b).contains(x) <==> a.contains(x) || b.contains(x),
{
    let all = a + b;
    if a.contains(x) {
        let i = choose|i: int| 0 <= i < a.len() && a[i] == x;
        assert(all[i] == x);
    }
    if b.contains(x) {
        let i = choose|i: int| 0 <= i < b.len() && b[i] == x;
        assert(all[a.len() + i] == x);
    }
    if all.contains(x) {
        let i = choose|i: int| 0 <= i < all.len() && all[i] == x;
        if i < a.len() {
            assert(a[i] == x);
        } else {
            assert(b[i - a.len()] == x);
        }
    }
}

/// A value that changes is told by its path: where two configurations have something
/// different at the same path, and not both an object, that path is told.
pub proof fn law_changed_value_is_told(
    old_entries: Seq<(Seq<char>, JsonView)>,
    new_entries: Seq<(Seq<char>, JsonView)>,
    path: Seq<char>,
    keys: Seq<Seq<char>>,
)
    requires
        ordered(JsonView::Object(old_entries)),
        ordered(JsonView::Object(new_entries)),
        keys.len() > 0,
        path_value(old_entries, keys) is Some,
        path_value(new_entries, keys) is Some,
        path_value(old_entries, keys) != path_value(new_entries, keys),
        path_value(old_entries, keys)->0 !is Object || path_value(new_entries, keys)->0 !is Object,
    ensures
        changed(JsonView::Object(old_entries), JsonView::Object(new_entries), path).contains(
            text_of_path(path, keys),
        ),
    decreases keys.len(),
{
    let child = child_path(path, keys[0]);
    let rest = keys.drop_first();
    let told = text_of_path(path, keys);
    let at = lemma_lookup_index(old_entries, keys[0]);
    let to = lemma_lookup_index(new_entries, keys[0]);
    assert(ordered(old_entries[at].1));
    assert(ordered(new_entries[to].1));
    let a = lookup(old_entries, keys[0])->0;
    let b = lookup(new_entries, keys[0])->0;
    if keys.len() == 1 {
        assert(text_of_path(child, rest) == child);
        assert(changed(a, b, child) =~= seq![child]);
        assert(changed(a, b, child)[0] == child);
    } else {
        law_changed_value_is_told(a->Object_0, b->Object_0, child, rest);
    }
    law_changes_are_told(old_entries, new_entries, path, keys[0], told);
}

/// What is told as changed is changed: a path that is told leads to something
/// different in the two configurations, or in one of them to nothing.
pub proof fn law_what_is_told_changed(
    old_entries: Seq<(Seq<char>, JsonView)>,
    new_entries: Seq<(Seq<char>, JsonView)>,
    path: Seq<char>,
    told: Seq<char>,
) -> (keys: Seq<Seq<char>>)
    requires
        ordered(JsonView::Object(old_entries)),
        ordered(JsonView::Object(new_entries)),
        changed_entries(old_entries, new_entries, path).contains(told),
    ensures
        keys.len() > 0,
        text_of_path(path, keys) == told,
        path_value(old_entries, keys) != path_value(new_entries, keys),
    decreases old_entries, new_entries.len(),
{
    let all = changed_entries(old_entries, new_entries, path);
    if new_entries.len() == 0 || (old_entries.len() > 0 && before(
        old_entries[0].0,
        new_entries[0].0,
    )) {
        let rest = old_entries.subrange(1, old_entries.len() as int);
        let own = child_path(path, old_entries[0].0);
        lemma_contains_sum(seq![own], changed_entries(rest, new_entries, path), told);
        if told == own {
            let keys = seq![old_entries[0].0];
            if new_entries.len() > 0 {
                lemma_ascending_rest(new_entries, old_entries[0].0);
            }
            assert(keys.drop_first() =~= Seq::empty());
            assert(text_of_path(own, keys.drop_first()) == own);
            keys
        } else {
            assert(seq![own].contains(told) ==> told == own);
            lemma_ordered_rest(old_entries);
            let keys = law_what_is_told_changed(rest, new_entries, path, told);
            lemma_told_in_rest(old_entries, new_entries, keys, true, false);
            keys
        }
    } else if old_entries.len() == 0 || old_entries[0].0 != new_entries[0].0 {
        let rest = new_entries.drop_first();
        let own = child_path(path, new_entries[0].0);
        lemma_contains_sum(seq![own], changed_entries(old_entries, rest, path), told);
        if told == own {
            let keys = seq![new_entries[0].0];
            if old_entries.len() > 0 {
                lemma_before_connected(old_entries[0].0, new_entries[0].0);
                lemma_ascending_rest(old_entries, new_entries[0].0);
            }
            assert(keys.drop_first() =~= Seq::empty());
            assert(text_of_path(own, keys.drop_first()) == own);
            keys
        } else {
            assert(seq![own].contains(told) ==> told == own);
            lemma_ordered_rest(new_entries);
            if old_entries.len() > 0 {
                lemma_before_connected(old_entries[0].0, new_entries[0].0);
            }
            let keys = law_what_is_told_changed(old_entries, rest, path, told);
            lemma_told_in_rest(old_entries, new_entries, keys, false, true);
            keys
        }
    } else {
        let old_rest = old_entries.subrange(1, old_entries.len() as int);
        let new_rest = new_entries.drop_first();
        let key = old_entries[0].0;
        let own = child_path(path, key);
        let first = changed(old_entries[0].1, new_entries[0].1, own);
        lemma_contains_sum(first, changed_entries(old_rest, new_rest, path), told);
        if first.contains(told) {
            assert(ordered(old_entries[0].1));
            assert(ordered(new_entries[0].1));
            match (old_entries[0].1, new_entries[0].1) {
                (JsonView::Object(a), JsonView::Object(b)) => {
                    let inner = law_what_is_told_changed(a, b, own, told);
                    let keys = seq![key] + inner;
                    assert(keys.drop_first() =~= inner);
                    keys
                },
                _ => {
                    let keys = seq![key];
                    assert(keys.drop_first() =~= Seq::empty());
                    assert(text_of_path(own, keys.drop_first()) == own);
                    keys
                },
            }
        } else {
            lemma_ordered_rest(old_entries);
            lemma_ordered_rest(new_entries);
            let keys = law_what_is_told_changed(old_rest, new_rest, path, told);
            lemma_told_in_rest(old_entries, new_entries, keys, true, true);
            keys
        }
    }
}

proof fn lemma_ordered_rest(entries: Seq<(Seq<char>, JsonView)>)
    requires
        ordered(JsonView::Object(entries)),
        entries.len() > 0,
    ensures
        ordered(JsonView::Object(entries.drop_first())),
        ordered(JsonView::Object(entries.subrange(1, entries.len() as int))),
{
    let rest = entries.drop_first();
    lemma_ascending_rest(entries, entries[0].0);
    assert forall|i: int| 0 <= i < rest.len() implies ordered((#[trigger] rest[i]).1) by {
        assert(ordered(entries[i + 1].1));
    }
}

/// What differs in the rest of two objects differs in the two.
proof fn lemma_told_in_rest(
    old_entries: Seq<(Seq<char>, JsonView)>,
    new_entries: Seq<(Seq<char>, JsonView)>,
    keys: Seq<Seq<char>>,
    skip_old: bool,
    skip_new: bool,
)
    requires
        ordered(JsonView::Object(old_entries)),
        ordered(JsonView::Object(new_entries)),
        keys.len() > 0,
        skip_old ==> old_entries.len() > 0,
        skip_new ==> new_entries.len() > 0,
        skip_old && skip_new ==> old_entries[0].0 == new_entries[0].0,
        skip_old && !skip_new && new_entries.len() > 0 ==> before(
            old_entries[0].0,
            new_entries[0].0,
        ),
        skip_new && !skip_old && old_entries.len() > 0 ==> before(
            new_entries[0].0,
            old_entries[0].0,
        ),
        skip_old || skip_new,
        path_value(
            if skip_old {
                old_entries.drop_first()
            } else {
                old_entries
            },
            keys,
        ) != path_value(
            if skip_new {
                new_entries.drop_first()
            } else {
                new_entries
            },
            keys,
        ),
    ensures
        path_value(old_entries, keys) != path_value(new_entries, keys),
{
    let key = keys[0];
    let first = if skip_old {
        old_entries[0].0
    } else {
        new_entries[0].0
    };
    if skip_old {
        lemma_ascending_rest(old_entries, key);
    }
    if skip_new {
        lemma_ascending_rest(new_entries, key);
    }
    if key == first {
        if old_entries.len() > 0 {
            lemma_ascending_rest(old_entries, key);
        }
        if new_entries.len() > 0 {
            lemma_ascending_rest(new_entries, key);
        }
        let a = if skip_old {
            old_entries.drop_first()
        } else {
            old_entries
        };
        let b = if skip_new {
            new_entries.drop_first()
        } else {
            new_entries
        };
        assert(lookup(a, key) is None);
        assert(lookup(b, key) is None);
    }
}

} // verus!
