//! The secret values of a configuration: how they are shown, kept and cleared.
use vstd::prelude::*;
use crate::config::json::copy_json;
use crate::config::json::entries_view;
use crate::config::json::items_view;
use crate::config::json::lookup;
use crate::config::json::ordered;
use crate::config::json::Json;
use crate::config::json::JsonView;
use crate::config::json::{lemma_array_view, lemma_entry_smaller, lemma_item_smaller};
use crate::config::json::lemma_object_view;
use crate::config::paths::get_path;
use crate::config::paths::set_path;
use crate::config::paths::value_at;
use crate::config::paths::written;
use crate::config::paths::{law_write_keeps_others, law_written_is_read, lemma_path_value_ordered};
use crate::config::paths::{lemma_written_ordered, path_value, path_written};
use crate::scan::split;
use crate::scan::{lemma_split_join, lemma_split_whole};
use crate::text::cat3;
use crate::text::owned;
use crate::text::str_equal;

verus! {

/// What is shown in place of a secret.
pub const SECRET_MASK: &'static str = "••••••";

/// The key of the object that asks to clear a secret.
pub const SECRET_CLEAR_MARKER: &'static str = "__clear__";

/// The paths of the secrets.
pub open spec fn secret_paths() -> Seq<Seq<char>> {
    seq![
        "http.access_token"@,
        "ai.api_key"@,
        "song_review.provider.api_key"@,
        "turtle_soup.ai.api_key"@,
    ]
}

/// How many secrets there are.
pub const SECRET_COUNT: usize = 4;

/// The path of a secret.
pub fn secret_path(k: usize) -> (r: &'static str)
    requires
        k < SECRET_COUNT,
    ensures
        r@ == secret_paths()[k as int],
{
    if k == 0 {
        "http.access_token"
    } else if k == 1 {
        "ai.api_key"
    } else if k == 2 {
        "song_review.provider.api_key"
    } else {
        "turtle_soup.ai.api_key"
    }
}

/// Whether a path is that of a secret.
pub fn is_secret_path(path: &str) -> (r: bool)
    ensures
        r == secret_paths().contains(path@),
{
    let mut k: usize = 0;
    while k < SECRET_COUNT
        invariant
            k <= SECRET_COUNT,
            forall|j: int| 0 <= j < k ==> secret_paths()[j] != path@,
        decreases SECRET_COUNT - k,
    {
        if str_equal(secret_path(k), path) {
            return true;
        }
        k = k + 1;
    }
    false
}

// ---------------------------------------------------------------------------
// Showing
// ---------------------------------------------------------------------------
/// The path of a key in the object at `path`.
pub open spec fn child_path(path: Seq<char>, key: Seq<char>) -> Seq<char> {
    if path.len() == 0 {
        key
    } else {
        path + "."@ + key
    }
}

/// The path of a key in the object at `path`.
pub fn join_path(path: &str, key: &str) -> (r: String)
    ensures
        r@ == child_path(path@, key@),
{
    if str_equal(path, "") {
        proof {
            reveal_strlit("");
        }
        owned(key)
    } else {
        proof {
            reveal_strlit("");
            if path@.len() == 0 {
                assert(path@ =~= ""@);
            }
        }
        cat3(path, ".", key)
    }
}

/// A value with its secrets masked, where the value itself stands at `path`.
pub open spec fn masked(value: JsonView, path: Seq<char>) -> JsonView
    decreases value,
{
    match value {
        JsonView::Object(entries) => JsonView::Object(
            Seq::new(
                entries.len(),
                |i: int|
                    if 0 <= i < entries.len() {
                        (
                            entries[i].0,
                            if secret_paths().contains(child_path(path, entries[i].0)) {
                                JsonView::String(SECRET_MASK@)
                            } else {
                                masked(entries[i].1, child_path(path, entries[i].0))
                            },
                        )
                    } else {
                        (Seq::empty(), JsonView::Null)
                    },
            ),
        ),
        JsonView::Array(items) => JsonView::Array(
            Seq::new(
                items.len(),
                |i: int|
                    if 0 <= i < items.len() {
                        masked(items[i], path)
                    } else {
                        JsonView::Null
                    },
            ),
        ),
        _ => value,
    }
}

/// What stands under a key once it is masked.
pub open spec fn masked_child(value: JsonView, path: Seq<char>) -> JsonView {
    if secret_paths().contains(path) {
        JsonView::String(SECRET_MASK@)
    } else {
        masked(value, path)
    }
}

/// Entries with their secrets masked.
pub open spec fn masked_entries(entries: Seq<(Seq<char>, JsonView)>, path: Seq<char>) -> Seq<
    (Seq<char>, JsonView),
> {
    Seq::new(
        entries.len(),
        |i: int| (entries[i].0, masked_child(entries[i].1, child_path(path, entries[i].0))),
    )
}

proof fn lemma_masked_object(entries: Seq<(Seq<char>, JsonView)>, path: Seq<char>)
    ensures
        masked(JsonView::Object(entries), path) == JsonView::Object(masked_entries(entries, path)),
{
    assert(masked(JsonView::Object(entries), path)->Object_0 =~= masked_entries(entries, path));
}

proof fn lemma_masked_lookup(
    entries: Seq<(Seq<char>, JsonView)>,
    path: Seq<char>,
    key: Seq<char>,
)
    ensures
        lookup(masked_entries(entries, path), key) == match lookup(entries, key) {
            Some(v) => Some(masked_child(v, child_path(path, key))),
            None => None,
        },
    decreases entries.len(),
{
    if entries.len() > 0 {
        let rest = entries.drop_first();
        lemma_masked_lookup(rest, path, key);
        assert(masked_entries(entries, path).drop_first() =~= masked_entries(rest, path));
    }
}

/// Masking what is masked changes nothing.
pub proof fn law_mask_idempotent(value: JsonView, path: Seq<char>)
    ensures
        masked(masked(value, path), path) == masked(value, path),
    decreases value,
{
    match value {
        JsonView::Object(entries) => {
            let once = masked_entries(entries, path);
            lemma_masked_object(entries, path);
            lemma_masked_object(once, path);
            assert forall|i: int| 0 <= i < entries.len() implies masked_entries(once, path)[i]
                == once[i] by {
                law_mask_idempotent(entries[i].1, child_path(path, entries[i].0));
            }
            assert(masked_entries(once, path) =~= once);
        },
        JsonView::Array(items) => {
            let once = masked(value, path)->Array_0;
            assert forall|i: int| 0 <= i < items.len() implies masked(once[i], path)
                == once[i] by {
                law_mask_idempotent(items[i], path);
            }
            assert(masked(masked(value, path), path)->Array_0 =~= once);
        },
        _ => {},
    }
}

/// The keys of the paths of the secrets, and that each starts with its own key.
pub proof fn lemma_secret_keys()
    ensures
        split(secret_paths()[0], '.') == seq!["http"@, "access_token"@],
        split(secret_paths()[1], '.') == seq!["ai"@, "api_key"@],
        split(secret_paths()[2], '.') == seq!["song_review"@, "provider"@, "api_key"@],
        split(secret_paths()[3], '.') == seq!["turtle_soup"@, "ai"@, "api_key"@],
        child_path("http"@, "access_token"@) == secret_paths()[0],
        child_path("ai"@, "api_key"@) == secret_paths()[1],
        child_path(child_path("song_review"@, "provider"@), "api_key"@) == secret_paths()[2],
        child_path(child_path("turtle_soup"@, "ai"@), "api_key"@) == secret_paths()[3],
        !secret_paths().contains("http"@),
        !secret_paths().contains("ai"@),
        !secret_paths().contains("song_review"@),
        !secret_paths().contains("turtle_soup"@),
        !secret_paths().contains(child_path("song_review"@, "provider"@)),
        !secret_paths().contains(child_path("turtle_soup"@, "ai"@)),
        forall|j: int, k: int|
            0 <= j < SECRET_COUNT && 0 <= k < SECRET_COUNT && j != k ==> split(
                #[trigger] secret_paths()[j],
                '.',
            )[0] != split(#[trigger] secret_paths()[k], '.')[0],
        forall|j: int| 0 <= j < SECRET_COUNT ==> split(#[trigger] secret_paths()[j], '.').len() >= 2,
{
    reveal_strlit("http.access_token");
    reveal_strlit("ai.api_key");
    reveal_strlit("song_review.provider.api_key");
    reveal_strlit("turtle_soup.ai.api_key");
    reveal_strlit("http");
    reveal_strlit("access_token");
    reveal_strlit("ai");
    reveal_strlit("api_key");
    reveal_strlit("song_review");
    reveal_strlit("provider");
    reveal_strlit("turtle_soup");
    reveal_strlit(".");
    let dot = seq!['.'];
    assert("."@ =~= dot);
    assert("http.access_token"@ =~= "http"@ + dot + "access_token"@);
    assert("ai.api_key"@ =~= "ai"@ + dot + "api_key"@);
    assert("song_review.provider.api_key"@ =~= "song_review"@ + dot + "provider"@ + dot
        + "api_key"@);
    assert("turtle_soup.ai.api_key"@ =~= "turtle_soup"@ + dot + "ai"@ + dot + "api_key"@);
    lemma_split_join("http"@, "access_token"@, '.');
    lemma_split_join("ai"@, "api_key"@, '.');
    lemma_split_join("song_review"@ + dot + "provider"@, "api_key"@, '.');
    lemma_split_join("song_review"@, "provider"@, '.');
    lemma_split_join("turtle_soup"@ + dot + "ai"@, "api_key"@, '.');
    lemma_split_join("turtle_soup"@, "ai"@, '.');
    lemma_split_whole("http"@, '.');
    lemma_split_whole("access_token"@, '.');
    lemma_split_whole("ai"@, '.');
    lemma_split_whole("api_key"@, '.');
    lemma_split_whole("song_review"@, '.');
    lemma_split_whole("provider"@, '.');
    lemma_split_whole("turtle_soup"@, '.');
    let paths = secret_paths();
    assert(split(paths[0], '.') =~= seq!["http"@, "access_token"@]);
    assert(split(paths[1], '.') =~= seq!["ai"@, "api_key"@]);
    assert(split(paths[2], '.') =~= seq!["song_review"@, "provider"@, "api_key"@]);
    assert(split(paths[3], '.') =~= seq!["turtle_soup"@, "ai"@, "api_key"@]);
    assert("http"@[0] == 'h');
    assert("ai"@[0] == 'a');
    assert("song_review"@[0] == 's');
    assert("turtle_soup"@[0] == 't');
    assert forall|j: int| 0 <= j < paths.len() implies {
        &&& (#[trigger] paths[j]).len() == 17 || paths[j].len() == 10 || paths[j].len() == 28
            || paths[j].len() == 22
    } by {}
    assert("http"@.len() == 4);
    assert("ai"@.len() == 2);
    assert("song_review"@.len() == 11);
    assert("turtle_soup"@.len() == 11);
    assert(child_path("song_review"@, "provider"@).len() == 20);
    assert(child_path("turtle_soup"@, "ai"@).len() == 14);
}

/// A masked configuration shows the mask in place of each secret that it has,
/// and has a secret where it had one.
pub proof fn law_mask_hides_secrets(entries: Seq<(Seq<char>, JsonView)>, k: int)
    requires
        0 <= k < SECRET_COUNT,
    ensures
        masked(JsonView::Object(entries), Seq::empty()) is Object,
        value_at(
            masked(JsonView::Object(entries), Seq::empty())->Object_0,
            secret_paths()[k],
        ) == match value_at(entries, secret_paths()[k]) {
            Some(_) => Some(JsonView::String(SECRET_MASK@)),
            None => None,
        },
{
    let path = secret_paths()[k];
    let keys = split(path, '.');
    let top = Seq::<char>::empty();
    lemma_secret_keys();
    lemma_masked_object(entries, top);
    lemma_masked_lookup(entries, top, keys[0]);
    let after = masked_entries(entries, top);
    reveal_with_fuel(path_value, 4);
    assert(secret_paths().contains(path));
    match lookup(entries, keys[0]) {
        Some(JsonView::Object(inner)) => {
            lemma_masked_object(inner, keys[0]);
            lemma_masked_lookup(inner, keys[0], keys[1]);
            assert(lookup(after, keys[0]) == Some(
                JsonView::Object(masked_entries(inner, keys[0])),
            ));
            if keys.len() == 2 {
                assert(keys.drop_first() =~= seq![keys[1]]);
                assert(path_value(inner, seq![keys[1]]) == lookup(inner, keys[1]));
            } else {
                let rest = keys.drop_first();
                assert(rest =~= seq![keys[1], keys[2]]);
                assert(rest.drop_first() =~= seq![keys[2]]);
                let prefix = child_path(keys[0], keys[1]);
                match lookup(inner, keys[1]) {
                    Some(JsonView::Object(deeper)) => {
                        lemma_masked_object(deeper, prefix);
                        lemma_masked_lookup(deeper, prefix, keys[2]);
                    },
                    Some(_) => {},
                    None => {},
                }
            }
        },
        Some(_) => {},
        None => {},
    }
}

fn mask_inner(value: &mut Json, path: &str)
    ensures
        final(value)@ == masked(old(value)@, path@),
    decreases *old(value),
{
    let mut held = Json::Null;
    core::mem::swap(&mut held, value);
    let ghost before = held;
    match held {
        Json::Object(found) => {
            let mut entries = found;
            let ghost start = entries@;
            let mut i: usize = 0;
            proof {
                lemma_object_view(found);
                lemma_masked_object(entries_view(start), path@);
            }
            while i < entries.len()
                invariant
                    i <= entries@.len(),
                    entries@.len() == start.len(),
                    before == *old(value),
                    before is Object,
                    before->Object_0@ == start,
                    forall|k: int| i <= k < start.len() ==> entries@[k] == start[k],
                    forall|k: int|
                        0 <= k < i ==> (#[trigger] entries@[k]).0@ == start[k].0@
                            && entries@[k].1@ == masked_child(
                            start[k].1@,
                            child_path(path@, start[k].0@),
                        ),
                decreases entries@.len() - i,
            {
                let child = join_path(path, entries[i].0.as_str());
                if is_secret_path(child.as_str()) {
                    entries[i].1 = Json::String(owned(SECRET_MASK));
                } else {
                    proof {
                        lemma_entry_smaller(before, i as int);
                    }
                    mask_inner(&mut entries[i].1, child.as_str());
                }
                i = i + 1;
            }
            proof {
                lemma_object_view(entries);
                assert(entries_view(entries@) =~= masked_entries(entries_view(start), path@));
            }
            *value = Json::Object(entries);
        },
        Json::Array(found) => {
            let mut items = found;
            let ghost start = items@;
            let mut i: usize = 0;
            proof {
                lemma_array_view(found);
            }
            while i < items.len()
                invariant
                    i <= items@.len(),
                    items@.len() == start.len(),
                    before == *old(value),
                    before is Array,
                    before->Array_0@ == start,
                    forall|k: int| i <= k < start.len() ==> items@[k] == start[k],
                    forall|k: int|
                        0 <= k < i ==> (#[trigger] items@[k])@ == masked(start[k]@, path@),
                decreases items@.len() - i,
            {
                proof {
                    lemma_item_smaller(before, i as int);
                }
                mask_inner(&mut items[i], path);
                i = i + 1;
            }
            proof {
                lemma_array_view(items);
                assert(items_view(items@) =~= masked(before@, path@)->Array_0);
            }
            *value = Json::Array(items);
        },
        other => {
            *value = other;
        },
    }
}

/// Masks the secrets of a configuration.
pub fn mask_secrets(value: &mut Json)
    ensures
        final(value)@ == masked(old(value)@, Seq::empty()),
{
    proof {
        reveal_strlit("");
        assert(""@ =~= Seq::empty());
    }
    mask_inner(value, "")
}

// ---------------------------------------------------------------------------
// Clearing and keeping
// ---------------------------------------------------------------------------
/// Whether a value asks to clear a secret.
pub open spec fn clear_marker(value: Option<JsonView>) -> bool {
    match value {
        Some(JsonView::Object(entries)) => entries == seq![
            (SECRET_CLEAR_MARKER@, JsonView::Bool(true)),
        ],
        _ => false,
    }
}

/// Whether a submitted secret stands for the one that is there.
pub open spec fn stands_for_current(value: Option<JsonView>) -> bool {
    match value {
        None => true,
        Some(JsonView::Null) => true,
        Some(JsonView::String(text)) => text.len() == 0 || text == SECRET_MASK@,
        Some(_) => false,
    }
}

/// The entries once the first `k` secrets that are to be cleared are empty.
pub open spec fn cleared(entries: Seq<(Seq<char>, JsonView)>, k: nat) -> Seq<(Seq<char>, JsonView)>
    decreases k,
{
    if k == 0 {
        entries
    } else {
        let earlier = cleared(entries, (k - 1) as nat);
        let path = secret_paths()[k - 1];
        if clear_marker(value_at(earlier, path)) {
            written(earlier, path, JsonView::String(Seq::empty()))
        } else {
            earlier
        }
    }
}

/// Which of the secrets are to be cleared.
pub open spec fn clearings(entries: Seq<(Seq<char>, JsonView)>) -> Seq<bool> {
    Seq::new(
        SECRET_COUNT as nat,
        |k: int| clear_marker(value_at(cleared(entries, k as nat), secret_paths()[k])),
    )
}

/// The entries once the first `k` secrets that are not cleared and stand for the
/// current ones are the current ones.
pub open spec fn retained(
    entries: Seq<(Seq<char>, JsonView)>,
    current: Seq<(Seq<char>, JsonView)>,
    clearing: Seq<bool>,
    k: nat,
) -> Seq<(Seq<char>, JsonView)>
    decreases k,
{
    if k == 0 {
        entries
    } else {
        let earlier = retained(entries, current, clearing, (k - 1) as nat);
        let path = secret_paths()[k - 1];
        match value_at(current, path) {
            Some(kept) => if !clearing[k - 1] && stands_for_current(value_at(earlier, path)) {
                written(earlier, path, kept)
            } else {
                earlier
            },
            None => earlier,
        }
    }
}

/// The entries once the first `k` secrets are the current ones, where there are
/// any.
pub open spec fn restored(
    entries: Seq<(Seq<char>, JsonView)>,
    current: Seq<(Seq<char>, JsonView)>,
    k: nat,
) -> Seq<(Seq<char>, JsonView)>
    decreases k,
{
    if k == 0 {
        entries
    } else {
        let earlier = restored(entries, current, (k - 1) as nat);
        let path = secret_paths()[k - 1];
        match value_at(current, path) {
            Some(kept) => written(earlier, path, kept),
            None => earlier,
        }
    }
}

/// The submitted entries with their secrets settled: cleared where that is asked
/// for, and kept where they stand for the current ones.
pub open spec fn settled(
    entries: Seq<(Seq<char>, JsonView)>,
    current: Seq<(Seq<char>, JsonView)>,
) -> Seq<(Seq<char>, JsonView)> {
    retained(
        cleared(entries, SECRET_COUNT as nat),
        current,
        clearings(entries),
        SECRET_COUNT as nat,
    )
}

/// Where a path leads to something, it can be written.
pub proof fn lemma_found_is_writable(
    entries: Seq<(Seq<char>, JsonView)>,
    path: Seq<Seq<char>>,
    value: JsonView,
)
    requires
        path_value(entries, path) is Some,
    ensures
        path_written(entries, path, value) is Some,
    decreases path.len(),
{
    if path.len() > 1 {
        match lookup(entries, path[0]) {
            Some(JsonView::Object(inner)) => {
                lemma_found_is_writable(inner, path.drop_first(), value);
            },
            _ => {},
        }
    }
}

/// A write at one secret path leaves alone what is read or written at another.
proof fn lemma_secrets_apart(
    entries: Seq<(Seq<char>, JsonView)>,
    j: int,
    k: int,
    value: JsonView,
    other: JsonView,
)
    requires
        0 <= j < SECRET_COUNT,
        0 <= k < SECRET_COUNT,
        j != k,
    ensures
        value_at(written(entries, secret_paths()[j], value), secret_paths()[k]) == value_at(
            entries,
            secret_paths()[k],
        ),
        lookup(
            written(entries, secret_paths()[j], value),
            split(secret_paths()[k], '.')[0],
        ) == lookup(entries, split(secret_paths()[k], '.')[0]),
        path_written(
            written(entries, secret_paths()[j], value),
            split(secret_paths()[k], '.'),
            other,
        ) is Some == path_written(entries, split(secret_paths()[k], '.'), other) is Some,
{
    lemma_secret_keys();
    let path = split(secret_paths()[j], '.');
    let apart = split(secret_paths()[k], '.');
    let after = written(entries, secret_paths()[j], value);
    if path_written(entries, path, value) is Some {
        assert(path.take(0) =~= apart.take(0));
        law_write_keeps_others(entries, path, value, apart, 0);
        assert(path.take(0) =~= seq![apart[0]].take(0));
        law_write_keeps_others(entries, path, value, seq![apart[0]], 0);
        assert(path_value(after, seq![apart[0]]) == lookup(after, apart[0]));
        assert(path_value(entries, seq![apart[0]]) == lookup(entries, apart[0]));
    }
}

proof fn lemma_cleared_others(entries: Seq<(Seq<char>, JsonView)>, n: nat, k: int, other: JsonView)
    requires
        n <= SECRET_COUNT,
        0 <= k < SECRET_COUNT,
    ensures
        k >= n ==> value_at(cleared(entries, n), secret_paths()[k]) == value_at(
            entries,
            secret_paths()[k],
        ),
        k < n ==> value_at(cleared(entries, n), secret_paths()[k]) == (if clear_marker(
            value_at(entries, secret_paths()[k]),
        ) {
            Some(JsonView::String(Seq::empty()))
        } else {
            value_at(entries, secret_paths()[k])
        }),
        path_written(cleared(entries, n), split(secret_paths()[k], '.'), other) is Some
            == path_written(entries, split(secret_paths()[k], '.'), other) is Some,
    decreases n,
{
    if n > 0 {
        let m = (n - 1) as nat;
        let earlier = cleared(entries, m);
        let empty = JsonView::String(Seq::empty());
        lemma_cleared_others(entries, m, k, other);
        let path = secret_paths()[m as int];
        if clear_marker(value_at(earlier, path)) {
            if k == m {
                let keys = split(path, '.');
                lemma_found_is_writable(earlier, keys, empty);
                law_written_is_read(earlier, keys, empty);
                lemma_found_is_writable(entries, keys, other);
                lemma_found_is_writable(cleared(entries, n), keys, other);
            } else {
                lemma_secrets_apart(earlier, m as int, k, empty, other);
            }
        }
    }
}

proof fn lemma_retained_others(
    entries: Seq<(Seq<char>, JsonView)>,
    current: Seq<(Seq<char>, JsonView)>,
    clearing: Seq<bool>,
    n: nat,
    k: int,
    other: JsonView,
)
    requires
        n <= SECRET_COUNT,
        0 <= k < SECRET_COUNT,
    ensures
        k >= n ==> value_at(retained(entries, current, clearing, n), secret_paths()[k])
            == value_at(entries, secret_paths()[k]) && path_written(
            retained(entries, current, clearing, n),
            split(secret_paths()[k], '.'),
            other,
        ) is Some == path_written(entries, split(secret_paths()[k], '.'), other) is Some,
        k < n ==> value_at(retained(entries, current, clearing, n), secret_paths()[k])
            == kept_secret(entries, current, clearing[k], k),
    decreases n,
{
    if n > 0 {
        let m = (n - 1) as nat;
        let earlier = retained(entries, current, clearing, m);
        let path = secret_paths()[m as int];
        let keys = split(path, '.');
        match value_at(current, path) {
            Some(kept) => {
                lemma_retained_others(entries, current, clearing, m, k, other);
                lemma_retained_others(entries, current, clearing, m, k, kept);
                if k == m {
                    if path_written(earlier, keys, kept) is Some {
                        law_written_is_read(earlier, keys, kept);
                    }
                } else {
                    lemma_secrets_apart(earlier, m as int, k, kept, other);
                }
            },
            None => {
                lemma_retained_others(entries, current, clearing, m, k, other);
            },
        }
    }
}

/// What a secret is once it is kept or not: the current one where there is one
/// that the submitted one stands for and that can be written, else the
/// submitted one.
pub open spec fn kept_secret(
    entries: Seq<(Seq<char>, JsonView)>,
    current: Seq<(Seq<char>, JsonView)>,
    clearing: bool,
    k: int,
) -> Option<JsonView> {
    let path = secret_paths()[k];
    match value_at(current, path) {
        Some(kept) => if !clearing && stands_for_current(value_at(entries, path)) && path_written(
            entries,
            split(path, '.'),
            kept,
        ) is Some {
            Some(kept)
        } else {
            value_at(entries, path)
        },
        None => value_at(entries, path),
    }
}

/// What becomes of a submitted secret: a clear marker leaves it empty; one that
/// is absent, null, empty or the mask leaves the current one, if there is one
/// and room for it; any other is taken as it is.
pub proof fn law_secrets_settle(
    entries: Seq<(Seq<char>, JsonView)>,
    current: Seq<(Seq<char>, JsonView)>,
    k: int,
)
    requires
        0 <= k < SECRET_COUNT,
    ensures
        value_at(settled(entries, current), secret_paths()[k]) == (if clear_marker(
            value_at(entries, secret_paths()[k]),
        ) {
            Some(JsonView::String(Seq::empty()))
        } else {
            kept_secret(entries, current, false, k)
        }),
{
    let path = secret_paths()[k];
    let clearing = clearings(entries);
    let after = cleared(entries, SECRET_COUNT as nat);
    lemma_cleared_others(entries, k as nat, k, JsonView::Null);
    assert(clearing[k] == clear_marker(value_at(entries, path)));
    match value_at(current, path) {
        Some(kept) => {
            lemma_cleared_others(entries, SECRET_COUNT as nat, k, kept);
            lemma_retained_others(after, current, clearing, SECRET_COUNT as nat, k, kept);
        },
        None => {
            lemma_cleared_others(entries, SECRET_COUNT as nat, k, JsonView::Null);
            lemma_retained_others(after, current, clearing, SECRET_COUNT as nat, k, JsonView::Null);
        },
    }
}

/// A restored configuration has the current secrets, where there are any and
/// room for them, whatever it had.
pub proof fn law_secrets_restored(
    entries: Seq<(Seq<char>, JsonView)>,
    current: Seq<(Seq<char>, JsonView)>,
    k: int,
)
    requires
        0 <= k < SECRET_COUNT,
        value_at(current, secret_paths()[k]) is Some,
        path_written(
            entries,
            split(secret_paths()[k], '.'),
            value_at(current, secret_paths()[k])->0,
        ) is Some,
    ensures
        value_at(restored(entries, current, SECRET_COUNT as nat), secret_paths()[k]) == value_at(
            current,
            secret_paths()[k],
        ),
{
    lemma_restored_others(entries, current, SECRET_COUNT as nat, k);
}

proof fn lemma_restored_others(
    entries: Seq<(Seq<char>, JsonView)>,
    current: Seq<(Seq<char>, JsonView)>,
    n: nat,
    k: int,
)
    requires
        n <= SECRET_COUNT,
        0 <= k < SECRET_COUNT,
        value_at(current, secret_paths()[k]) is Some,
        path_written(
            entries,
            split(secret_paths()[k], '.'),
            value_at(current, secret_paths()[k])->0,
        ) is Some,
    ensures
        k < n ==> value_at(restored(entries, current, n), secret_paths()[k]) == value_at(
            current,
            secret_paths()[k],
        ),
        path_written(
            restored(entries, current, n),
            split(secret_paths()[k], '.'),
            value_at(current, secret_paths()[k])->0,
        ) is Some,
    decreases n,
{
    if n > 0 {
        let m = (n - 1) as nat;
        let earlier = restored(entries, current, m);
        let own = value_at(current, secret_paths()[k])->0;
        lemma_restored_others(entries, current, m, k);
        match value_at(current, secret_paths()[m as int]) {
            Some(kept) => {
                if k == m {
                    let keys = split(secret_paths()[k], '.');
                    law_written_is_read(earlier, keys, own);
                    lemma_found_is_writable(restored(entries, current, n), keys, own);
                } else {
                    lemma_secrets_apart(earlier, m as int, k, kept, own);
                }
            },
            None => {},
        }
    }
}

/// Whether a value asks to clear a secret.
fn is_clear_marker(value: Option<&Json>) -> (r: bool)
    ensures
        r == clear_marker(
            match value {
                Some(v) => Some(v@),
                None => None,
            },
        ),
{
    match value {
        Some(Json::Object(entries)) => {
            proof {
                lemma_object_view(*entries);
            }
            if entries.len() != 1 {
                assert(entries_view(entries@).len() != 1);
                return false;
            }
            let ghost view = entries_view(entries@);
            assert(view[0] == (entries@[0].0@, entries@[0].1@));
            if !str_equal(entries[0].0.as_str(), SECRET_CLEAR_MARKER) {
                return false;
            }
            match &entries[0].1 {
                Json::Bool(true) => {
                    assert(view =~= seq![(SECRET_CLEAR_MARKER@, JsonView::Bool(true))]);
                    true
                },
                _ => {
                    assert(view[0].1 != JsonView::Bool(true));
                    false
                },
            }
        },
        _ => false,
    }
}

/// Whether a submitted secret stands for the one that is there.
fn is_for_current(value: Option<&Json>) -> (r: bool)
    ensures
        r == stands_for_current(
            match value {
                Some(v) => Some(v@),
                None => None,
            },
        ),
{
    match value {
        None => true,
        Some(Json::Null) => true,
        Some(Json::String(text)) => {
            proof {
                reveal_strlit("");
                if text@.len() == 0 {
                    assert(text@ =~= ""@);
                }
            }
            str_equal(text.as_str(), "") || str_equal(text.as_str(), SECRET_MASK)
        },
        Some(_) => false,
    }
}

/// Empties the secrets that are to be cleared; says which they are.
pub fn apply_secret_clear_markers(merged: &mut Vec<(String, Json)>) -> (r: Vec<bool>)
    requires
        ordered(JsonView::Object(entries_view(old(merged)@))),
    ensures
        entries_view(final(merged)@) == cleared(entries_view(old(merged)@), SECRET_COUNT as nat),
        r@ == clearings(entries_view(old(merged)@)),
        ordered(JsonView::Object(entries_view(final(merged)@))),
{
    let ghost start = entries_view(merged@);
    let mut clearing: Vec<bool> = Vec::new();
    let mut k: usize = 0;
    while k < SECRET_COUNT
        invariant
            k <= SECRET_COUNT,
            clearing@.len() == k,
            entries_view(merged@) == cleared(start, k as nat),
            ordered(JsonView::Object(entries_view(merged@))),
            forall|j: int| 0 <= j < k ==> clearing@[j] == clearings(start)[j],
        decreases SECRET_COUNT - k,
    {
        let path = secret_path(k);
        let ghost earlier = entries_view(merged@);
        if is_clear_marker(get_path(merged, path)) {
            let empty = Json::String(String::new());
            proof {
                assert(empty@ == JsonView::String(Seq::empty()));
                lemma_found_is_writable(earlier, split(path@, '.'), empty@);
                lemma_written_ordered(earlier, split(path@, '.'), empty@);
            }
            let done = set_path(merged, path, empty);
            clearing.push(true);
        } else {
            clearing.push(false);
        }
        k = k + 1;
    }
    assert(clearing@ =~= clearings(start));
    clearing
}

/// Keeps the current secrets where the submitted ones stand for them.
pub fn retain_secret_fields(
    merged: &mut Vec<(String, Json)>,
    current: &Vec<(String, Json)>,
    clearing: &Vec<bool>,
)
    requires
        ordered(JsonView::Object(entries_view(old(merged)@))),
        ordered(JsonView::Object(entries_view(current@))),
        clearing@.len() == SECRET_COUNT,
    ensures
        entries_view(final(merged)@) == retained(
            entries_view(old(merged)@),
            entries_view(current@),
            clearing@,
            SECRET_COUNT as nat,
        ),
        ordered(JsonView::Object(entries_view(final(merged)@))),
{
    let ghost start = entries_view(merged@);
    let mut k: usize = 0;
    while k < SECRET_COUNT
        invariant
            k <= SECRET_COUNT,
            clearing@.len() == SECRET_COUNT,
            entries_view(merged@) == retained(
                start,
                entries_view(current@),
                clearing@,
                k as nat,
            ),
            ordered(JsonView::Object(entries_view(merged@))),
            ordered(JsonView::Object(entries_view(current@))),
        decreases SECRET_COUNT - k,
    {
        let path = secret_path(k);
        let ghost earlier = entries_view(merged@);
        if !clearing[k] {
            match get_path(current, path) {
                Some(kept) => {
                    if is_for_current(get_path(merged, path)) {
                        let copy = copy_json(kept);
                        proof {
                            lemma_path_value_ordered(entries_view(current@), split(path@, '.'));
                            if path_written(earlier, split(path@, '.'), copy@) is Some {
                                lemma_written_ordered(earlier, split(path@, '.'), copy@);
                            }
                        }
                        let done = set_path(merged, path, copy);
                    }
                },
                None => {},
            }
        }
        k = k + 1;
    }
}

/// Puts the current secrets in place of those of an earlier configuration.
pub fn force_retain_secret_fields(
    merged: &mut Vec<(String, Json)>,
    current: &Vec<(String, Json)>,
)
    requires
        ordered(JsonView::Object(entries_view(old(merged)@))),
        ordered(JsonView::Object(entries_view(current@))),
    ensures
        entries_view(final(merged)@) == restored(
            entries_view(old(merged)@),
            entries_view(current@),
            SECRET_COUNT as nat,
        ),
        ordered(JsonView::Object(entries_view(final(merged)@))),
{
    let ghost start = entries_view(merged@);
    let mut k: usize = 0;
    while k < SECRET_COUNT
        invariant
            k <= SECRET_COUNT,
            entries_view(merged@) == restored(start, entries_view(current@), k as nat),
            ordered(JsonView::Object(entries_view(merged@))),
            ordered(JsonView::Object(entries_view(current@))),
        decreases SECRET_COUNT - k,
    {
        let path = secret_path(k);
        let ghost earlier = entries_view(merged@);
        match get_path(current, path) {
            Some(kept) => {
                let copy = copy_json(kept);
                proof {
                    lemma_path_value_ordered(entries_view(current@), split(path@, '.'));
                    if path_written(earlier, split(path@, '.'), copy@) is Some {
                        lemma_written_ordered(earlier, split(path@, '.'), copy@);
                    }
                }
                let done = set_path(merged, path, copy);
            },
            None => {},
        }
        k = k + 1;
    }
}

// ---------------------------------------------------------------------------
// What is left alone
// ---------------------------------------------------------------------------
/// Whether one path parts from another before either ends.
pub open spec fn parts_from(path: Seq<Seq<char>>, other: Seq<Seq<char>>) -> bool {
    exists|i: int|
        0 <= i < path.len() && i < other.len() && path[i] != other[i] && #[trigger] path.take(i)
            == other.take(i)
}

/// Whether a path parts from that of each secret.
pub open spec fn apart_from_secrets(path: Seq<Seq<char>>) -> bool {
    forall|k: int|
        0 <= k < SECRET_COUNT ==> parts_from(split(#[trigger] secret_paths()[k], '.'), path)
}

proof fn lemma_write_apart(
    entries: Seq<(Seq<char>, JsonView)>,
    k: int,
    value: JsonView,
    path: Seq<Seq<char>>,
)
    requires
        0 <= k < SECRET_COUNT,
        apart_from_secrets(path),
    ensures
        path_value(written(entries, secret_paths()[k], value), path) == path_value(entries, path),
{
    let keys = split(secret_paths()[k], '.');
    assert(parts_from(keys, path));
    let i = choose|i: int|
        0 <= i < keys.len() && i < path.len() && keys[i] != path[i] && #[trigger] keys.take(i)
            == path.take(i);
    if path_written(entries, keys, value) is Some {
        law_write_keeps_others(entries, keys, value, path, i);
    }
}

/// Settling the secrets changes nothing at a path that parts from theirs.
pub proof fn law_settling_keeps_others(
    entries: Seq<(Seq<char>, JsonView)>,
    current: Seq<(Seq<char>, JsonView)>,
    path: Seq<Seq<char>>,
)
    requires
        apart_from_secrets(path),
    ensures
        path_value(settled(entries, current), path) == path_value(entries, path),
{
    let after = cleared(entries, SECRET_COUNT as nat);
    lemma_cleared_apart(entries, SECRET_COUNT as nat, path);
    lemma_retained_apart(after, current, clearings(entries), SECRET_COUNT as nat, path);
}

proof fn lemma_cleared_apart(entries: Seq<(Seq<char>, JsonView)>, n: nat, path: Seq<Seq<char>>)
    requires
        n <= SECRET_COUNT,
        apart_from_secrets(path),
    ensures
        path_value(cleared(entries, n), path) == path_value(entries, path),
    decreases n,
{
    if n > 0 {
        let earlier = cleared(entries, (n - 1) as nat);
        lemma_cleared_apart(entries, (n - 1) as nat, path);
        lemma_write_apart(earlier, n - 1, JsonView::String(Seq::empty()), path);
    }
}

proof fn lemma_retained_apart(
    entries: Seq<(Seq<char>, JsonView)>,
    current: Seq<(Seq<char>, JsonView)>,
    clearing: Seq<bool>,
    n: nat,
    path: Seq<Seq<char>>,
)
    requires
        n <= SECRET_COUNT,
        apart_from_secrets(path),
    ensures
        path_value(retained(entries, current, clearing, n), path) == path_value(entries, path),
    decreases n,
{
    if n > 0 {
        let earlier = retained(entries, current, clearing, (n - 1) as nat);
        lemma_retained_apart(entries, current, clearing, (n - 1) as nat, path);
        match value_at(current, secret_paths()[n - 1]) {
            Some(kept) => {
                lemma_write_apart(earlier, n - 1, kept, path);
            },
            None => {},
        }
    }
}

/// Putting the current secrets in place changes nothing at a path that parts
/// from theirs.
pub proof fn law_restoring_keeps_others(
    entries: Seq<(Seq<char>, JsonView)>,
    current: Seq<(Seq<char>, JsonView)>,
    n: nat,
    path: Seq<Seq<char>>,
)
    requires
        n <= SECRET_COUNT,
        apart_from_secrets(path),
    ensures
        path_value(restored(entries, current, n), path) == path_value(entries, path),
    decreases n,
{
    if n > 0 {
        let earlier = restored(entries, current, (n - 1) as nat);
        law_restoring_keeps_others(entries, current, (n - 1) as nat, path);
        match value_at(current, secret_paths()[n - 1]) {
            Some(kept) => {
                lemma_write_apart(earlier, n - 1, kept, path);
            },
            None => {},
        }
    }
}

// ---------------------------------------------------------------------------
// What masking is for
// ---------------------------------------------------------------------------
/// Whether a secret stands somewhere below a path.
pub open spec fn above_secret(path: Seq<char>) -> bool {
    exists|k: int, rest: Seq<char>|
        0 <= k < SECRET_COUNT && #[trigger] secret_paths()[k] == #[trigger] child_path(path, rest)
}

proof fn lemma_above_child(path: Seq<char>, key: Seq<char>)
    requires
        !above_secret(path),
    ensures
        !above_secret(child_path(path, key)),
        !secret_paths().contains(child_path(path, key)),
{
    let child = child_path(path, key);
    if secret_paths().contains(child) {
        let k = choose|k: int| 0 <= k < secret_paths().len() && secret_paths()[k] == child;
        assert(secret_paths()[k] == child_path(path, key));
    }
    if path.len() == 0 {
        assert(secret_paths()[0] == child_path(path, secret_paths()[0]));
    }
    if above_secret(child) {
        let (k, rest) = choose|k: int, rest: Seq<char>|
            0 <= k < SECRET_COUNT && #[trigger] secret_paths()[k] == #[trigger] child_path(
                child,
                rest,
            );
        reveal_strlit(".");
        assert(child.len() > 0);
        assert(child_path(child, rest) =~= child_path(path, key + "."@ + rest));
        assert(secret_paths()[k] == child_path(path, key + "."@ + rest));
    }
}

/// A value below which no secret stands is shown as it is: lists with all that they
/// hold, objects, texts, numbers.
pub proof fn law_mask_keeps_what_is_no_secret(value: JsonView, path: Seq<char>)
    requires
        !above_secret(path),
    ensures
        masked(value, path) == value,
    decreases value,
{
    match value {
        JsonView::Object(entries) => {
            lemma_masked_object(entries, path);
            assert forall|i: int| 0 <= i < entries.len() implies masked_entries(entries, path)[i]
                == entries[i] by {
                lemma_above_child(path, entries[i].0);
                law_mask_keeps_what_is_no_secret(entries[i].1, child_path(path, entries[i].0));
            }
            assert(masked_entries(entries, path) =~= entries);
        },
        JsonView::Array(items) => {
            let after = masked(value, path)->Array_0;
            assert forall|i: int| 0 <= i < items.len() implies after[i] == items[i] by {
                law_mask_keeps_what_is_no_secret(items[i], path);
            }
            assert(after =~= items);
        },
        _ => {},
    }
}

/// Wherever a value stands, masking leaves a text, a number, a truth value and
/// nothing as they are; a list keeps its length, and each of its items is masked by
/// itself; an object keeps its keys and their order, and of each value under them
/// either the mask is shown or the value itself, masked.
pub proof fn law_mask_keeps_shape(value: JsonView, path: Seq<char>, i: int)
    ensures
        value !is Object && value !is Array ==> masked(value, path) == value,
        value matches JsonView::Array(items) ==> {
            &&& masked(value, path) is Array
            &&& masked(value, path)->Array_0.len() == items.len()
            &&& 0 <= i < items.len() ==> masked(value, path)->Array_0[i] == masked(items[i], path)
        },
        value matches JsonView::Object(entries) ==> {
            &&& masked(value, path) is Object
            &&& masked(value, path)->Object_0.len() == entries.len()
            &&& 0 <= i < entries.len() ==> masked(value, path)->Object_0[i].0 == entries[i].0
            &&& 0 <= i < entries.len() && !secret_paths().contains(
                child_path(path, entries[i].0),
            ) ==> masked(value, path)->Object_0[i].1 == masked(
                entries[i].1,
                child_path(path, entries[i].0),
            )
            &&& 0 <= i < entries.len() && secret_paths().contains(child_path(path, entries[i].0))
                ==> masked(value, path)->Object_0[i].1 == JsonView::String("••••••"@)
        },
{
}

/// The path that keys lead to, one below the other.
pub open spec fn text_of_path(path: Seq<char>, keys: Seq<Seq<char>>) -> Seq<char>
    decreases keys.len(),
{
    if keys.len() == 0 {
        path
    } else {
        text_of_path(child_path(path, keys[0]), keys.drop_first())
    }
}

/// Whether a secret is passed on the way along keys.
pub open spec fn passes_secret(path: Seq<char>, keys: Seq<Seq<char>>) -> bool
    decreases keys.len(),
{
    keys.len() > 0 && (secret_paths().contains(child_path(path, keys[0])) || passes_secret(
        child_path(path, keys[0]),
        keys.drop_first(),
    ))
}

proof fn lemma_mask_at(entries: Seq<(Seq<char>, JsonView)>, path: Seq<char>, keys: Seq<Seq<char>>)
    requires
        !passes_secret(path, keys),
    ensures
        path_value(masked_entries(entries, path), keys) == match path_value(entries, keys) {
            Some(value) => Some(masked(value, text_of_path(path, keys))),
            None => None,
        },
    decreases keys.len(),
{
    if keys.len() > 0 {
        let child = child_path(path, keys[0]);
        let rest = keys.drop_first();
        lemma_masked_lookup(entries, path, keys[0]);
        if keys.len() == 1 {
            assert(text_of_path(child, rest) == child);
        } else {
            match lookup(entries, keys[0]) {
                Some(JsonView::Object(inner)) => {
                    lemma_masked_object(inner, child);
                    lemma_mask_at(inner, child, rest);
                },
                _ => {},
            }
        }
    }
}

/// At a path that is no secret's, and that lies neither above nor below one, a
/// masked configuration shows what stands there, lists and all.
pub proof fn law_mask_changes_only_secrets(
    entries: Seq<(Seq<char>, JsonView)>,
    keys: Seq<Seq<char>>,
)
    requires
        !passes_secret(Seq::empty(), keys),
        !above_secret(text_of_path(Seq::empty(), keys)),
    ensures
        masked(JsonView::Object(entries), Seq::empty()) is Object,
        path_value(masked(JsonView::Object(entries), Seq::empty())->Object_0, keys) == path_value(
            entries,
            keys,
        ),
{
    let top = Seq::<char>::empty();
    lemma_masked_object(entries, top);
    lemma_mask_at(entries, top, keys);
    match path_value(entries, keys) {
        Some(value) => {
            law_mask_keeps_what_is_no_secret(value, text_of_path(top, keys));
        },
        None => {},
    }
}

/// A section that has no secret is shown as it is.
pub proof fn law_other_sections_are_shown(
    entries: Seq<(Seq<char>, JsonView)>,
    section: Seq<char>,
)
    requires
        section.len() > 0,
        !section.contains('.'),
        section != "http"@,
        section != "ai"@,
        section != "song_review"@,
        section != "turtle_soup"@,
    ensures
        lookup(masked(JsonView::Object(entries), Seq::empty())->Object_0, section) == lookup(
            entries,
            section,
        ),
{
    let top = Seq::<char>::empty();
    lemma_masked_object(entries, top);
    lemma_masked_lookup(entries, top, section);
    lemma_secret_keys();
    assert(!above_secret(section)) by {
        if above_secret(section) {
            let (k, rest) = choose|k: int, rest: Seq<char>|
                0 <= k < SECRET_COUNT && #[trigger] secret_paths()[k] == #[trigger] child_path(
                    section,
                    rest,
                );
            reveal_strlit(".");
            assert("."@ =~= seq!['.']);
            lemma_split_join(section, rest, '.');
            lemma_split_whole(section, '.');
            assert(split(secret_paths()[k], '.')[0] == section);
        }
    }
    assert(!secret_paths().contains(section)) by {
        if secret_paths().contains(section) {
            let k = choose|k: int| 0 <= k < secret_paths().len() && secret_paths()[k] == section;
            lemma_split_whole(section, '.');
            assert(split(secret_paths()[k], '.').len() >= 2);
        }
    }
    match lookup(entries, section) {
        Some(value) => {
            law_mask_keeps_what_is_no_secret(value, section);
        },
        None => {},
    }
}

/// A secret that is left out, null, empty or the mask stays what it was, where
/// something was there and there is room for it.
pub proof fn law_untouched_secret_stays(
    entries: Seq<(Seq<char>, JsonView)>,
    current: Seq<(Seq<char>, JsonView)>,
    k: int,
)
    requires
        0 <= k < SECRET_COUNT,
        value_at(current, secret_paths()[k]) is Some,
        path_written(
            entries,
            split(secret_paths()[k], '.'),
            value_at(current, secret_paths()[k])->0,
        ) is Some,
        ({
            let given = value_at(entries, secret_paths()[k]);
            ||| given is None
            ||| given == Some(JsonView::Null)
            ||| given == Some(JsonView::String(Seq::empty()))
            ||| given == Some(JsonView::String("••••••"@))
        }),
    ensures
        value_at(settled(entries, current), secret_paths()[k]) == value_at(
            current,
            secret_paths()[k],
        ),
{
    law_secrets_settle(entries, current, k);
}

/// A new secret is taken: a text that is neither empty nor the mask, whatever was
/// there before.
pub proof fn law_new_secret_is_taken(
    entries: Seq<(Seq<char>, JsonView)>,
    current: Seq<(Seq<char>, JsonView)>,
    k: int,
    text: Seq<char>,
)
    requires
        0 <= k < SECRET_COUNT,
        text.len() > 0,
        text != "••••••"@,
        value_at(entries, secret_paths()[k]) == Some(JsonView::String(text)),
    ensures
        value_at(settled(entries, current), secret_paths()[k]) == Some(JsonView::String(text)),
{
    law_secrets_settle(entries, current, k);
}

/// A secret for which the object that asks for it is submitted is empty afterwards,
/// whatever was there before.
pub proof fn law_secret_is_cleared(
    entries: Seq<(Seq<char>, JsonView)>,
    current: Seq<(Seq<char>, JsonView)>,
    k: int,
)
    requires
        0 <= k < SECRET_COUNT,
        value_at(entries, secret_paths()[k]) == Some(
            JsonView::Object(seq![("__clear__"@, JsonView::Bool(true))]),
        ),
    ensures
        value_at(settled(entries, current), secret_paths()[k]) == Some(
            JsonView::String(Seq::empty()),
        ),
{
    law_secrets_settle(entries, current, k);
}

} // verus!
