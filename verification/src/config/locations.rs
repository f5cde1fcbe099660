//! Where paths lead from the directory of the program.
use std::path::Path;
use vstd::prelude::*;
use crate::config::app::AppConfig;
use crate::config::app::resolved;
use crate::config::app::{
    listed, listed_option, listed_steps, listed_templates, listed_workflows, step_resolved,
    workflow_resolved,
};
use crate::config::checks::is_empty_text;
use crate::config::settings::BootstrapConfig;
use crate::config::settings::PlaybackConfig;
use crate::custom_workflow::definition::template_named;
use crate::custom_workflow::definition::CustomWorkflowDefinition;
use crate::custom_workflow::definition::CustomWorkflowStep;
use crate::text::owned;
use crate::text::string_views;

verus! {

/// Whether a path is relative on every platform: it starts at no root and names
/// no drive.
pub open spec fn plain_path(path: Seq<char>) -> bool {
    path.len() > 0 && path[0] != '/' && path[0] != '\\' && !path.contains(':')
}

/// Whether a directory is written as usual: not to be taken word for word.
pub open spec fn plain_root(root: Seq<char>) -> bool {
    !"\\\\?\\"@.is_prefix_of(root)
}

/// Whether a place is the one that a path leads to from a directory. What stands
/// between them is for the platform to say.
pub open spec fn lies_under(root: Seq<char>, path: Seq<char>, place: Seq<char>) -> bool {
    place == root + path || place == root + seq!['/'] + path || place == root + seq!['\\'] + path
}

/// `Path::is_relative` of std. Which paths are relative differs from platform to
/// platform; one without a root and without a drive is relative on all of them.
#[verifier::external_body]
fn is_relative(path: &str) -> (r: bool)
    ensures
        plain_path(path@) ==> r,
{
    Path::new(path).is_relative()
}

/// Whether a directory and a path can make this together, as far as that is the
/// same on every platform: the path stands at the end, and a plain one behind the
/// whole directory.
pub open spec fn can_join(root: Seq<char>, path: Seq<char>, joined: Seq<char>) -> bool {
    plain_root(root) ==> {
        &&& path.is_suffix_of(joined)
        &&& plain_path(path) ==> lies_under(root, path, joined)
    }
}

/// `Path::join` of std. How two paths are put together differs from platform to
/// platform. Unless the directory is to be taken word for word, the path stands at
/// the end on all of them: it takes the place of the directory, or of all but its
/// drive, or stands behind it. One without a root and without a drive is put behind
/// the directory, with a separator between them where there is none. What becomes
/// of a path under a directory that is to be taken word for word is not said.
#[verifier::external_body]
fn join_path(root: &str, path: &str) -> (r: String)
    ensures
        can_join(root@, path@, r@),
{
    Path::new(root).join(path).to_string_lossy().into_owned()
}

/// Whether `Path::is_relative`, asked of a path, gives this answer.
pub closed spec fn answers_relative(path: Seq<char>, answer: bool) -> bool {
    exists|text: &str| text@ == path && #[trigger] call_ensures(is_relative, (text,), answer)
}

/// Whether `Path::join` makes this of a directory and a path.
pub closed spec fn makes_joined(root: Seq<char>, path: Seq<char>, joined: Seq<char>) -> bool {
    exists|from: &str, text: &str, made: String|
        from@ == root && text@ == path && made@ == joined && #[trigger] call_ensures(
            join_path,
            (from, text),
            made,
        )
}

/// Whether a character parts the names in a path on some platform.
pub open spec fn path_separator(c: char) -> bool {
    c == '/' || c == '\\'
}

/// What stands behind the last `/` of a path.
pub open spec fn last_part(path: Seq<char>) -> Seq<char>
    decreases path.len(),
{
    if path.len() == 0 || path.last() == '/' {
        Seq::empty()
    } else {
        last_part(path.drop_last()).push(path.last())
    }
}

/// Whether a path ends in a name on every platform: it does not start as one of
/// the network, and behind its last `/` stands a name that is not one of the
/// directory itself or of the one above, without a backslash or a colon.
pub open spec fn ends_in_name(path: Seq<char>) -> bool {
    &&& !(path.len() >= 2 && path_separator(path[0]) && path_separator(path[1]))
    &&& last_part(path).len() > 0
    &&& last_part(path) != "."@
    &&& last_part(path) != ".."@
    &&& !last_part(path).contains('\\')
    &&& !last_part(path).contains(':')
}

/// Whether a name may be the one that a path ends in, as far as that is the same
/// on every platform.
pub open spec fn names_file(path: Seq<char>, name: Option<Seq<char>>) -> bool {
    ends_in_name(path) ==> name == Some(last_part(path))
}

/// What stands in a text that may be missing.
pub open spec fn name_view(name: Option<String>) -> Option<Seq<char>> {
    match name {
        Some(name) => Some(name@),
        None => None,
    }
}

/// `Path::file_name` of std. What separates names differs from platform to
/// platform; where a name stands behind the last `/`, it is that on all of them.
#[verifier::external_body]
fn file_name_of(path: &str) -> (r: Option<String>)
    ensures
        names_file(path@, name_view(r)),
{
    match Path::new(path).file_name() {
        Some(name) => Some(name.to_string_lossy().into_owned()),
        None => None,
    }
}

/// Whether `Path::file_name`, asked of a path, gives this answer.
pub closed spec fn answers_name(path: Seq<char>, name: Option<Seq<char>>) -> bool {
    exists|text: &str, answer: Option<String>|
        text@ == path && name_view(answer) == name && #[trigger] call_ensures(
            file_name_of,
            (text,),
            answer,
        )
}

/// Whether a name is the one that a path ends in, as the platform says.
pub open spec fn ends_in(path: Seq<char>, name: Option<Seq<char>>) -> bool {
    answers_name(path, name) && names_file(path, name)
}

/// The name that a path ends in.
pub(crate) fn name_at_end(path: &str) -> (r: Option<String>)
    ensures
        ends_in(path@, name_view(r)),
{
    let name = file_name_of(path);
    assert(answers_name(path@, name_view(name)));
    name
}

/// Where a path leads: a relative one to what it makes with the directory of the
/// program, `joined`, and any other to where it says. An empty path leads nowhere.
pub open spec fn place_of(path: Seq<char>, relative: bool, joined: Seq<char>) -> Seq<char> {
    if path.len() > 0 && relative {
        joined
    } else {
        path
    }
}

/// Where a path leads: a relative one to what it makes with the directory of the
/// program, `joined`, and any other to where it says. An empty path leads nowhere.
pub fn place_path(path: &str, relative: bool, joined: String) -> (r: String)
    ensures
        r@ == place_of(path@, relative, joined@),
{
    if !is_empty_text(path) && relative {
        joined
    } else {
        owned(path)
    }
}

/// Whether a path leads to a place from a directory, by what the platform says of
/// the two: whether the path is relative, and what they make together.
pub open spec fn leads_to(root: Seq<char>, path: Seq<char>, place: Seq<char>) -> bool {
    exists|relative: bool, joined: Seq<char>|
        {
            &&& #[trigger] answers_relative(path, relative)
            &&& plain_path(path) ==> relative
            &&& #[trigger] makes_joined(root, path, joined)
            &&& can_join(root, path, joined)
            &&& place == place_of(path, relative, joined)
        }
}

/// An absolute path leads to where it says, a relative one to what it makes with
/// the directory, and an empty one nowhere. Whichever it is, the place ends in the
/// path, and a plain path leads into the directory.
pub proof fn law_where_paths_lead(root: Seq<char>, path: Seq<char>, place: Seq<char>)
    requires
        leads_to(root, path, place),
    ensures
        !answers_relative(path, true) ==> place == path,
        path.len() > 0 && !answers_relative(path, false) ==> makes_joined(root, path, place),
        path.len() == 0 ==> place == path,
        plain_root(root) ==> path.is_suffix_of(place),
        plain_path(path) && plain_root(root) ==> lies_under(root, path, place),
{
    assert(path.is_suffix_of(path));
}

/// Whether a table tells of paths, one after the other, where they lead from a
/// directory.
pub open spec fn tells_of(
    root: Seq<char>,
    table: Seq<(String, String)>,
    paths: Seq<Seq<char>>,
) -> bool {
    &&& table.len() == paths.len()
    &&& forall|i: int|
        0 <= i < table.len() ==> (#[trigger] table[i]).0@ == paths[i] && leads_to(
            root,
            paths[i],
            table[i].1@,
        )
}

/// A path that a table tells of becomes the place that it leads to: an absolute or
/// an empty one stays as it is, and a plain one lies under the directory.
pub proof fn law_path_leads_under_root(
    root: Seq<char>,
    table: Seq<(String, String)>,
    paths: Seq<Seq<char>>,
    path: Seq<char>,
)
    requires
        tells_of(root, table, paths),
        paths.contains(path),
    ensures
        leads_to(root, path, resolved(table, path)),
        path.len() == 0 || !answers_relative(path, true) ==> resolved(table, path) == path,
        plain_root(root) ==> path.is_suffix_of(resolved(table, path)),
        plain_path(path) && plain_root(root) ==> lies_under(root, path, resolved(table, path)),
{
    let at = choose|i: int| 0 <= i < paths.len() && paths[i] == path;
    assert(leads_to(root, path, table[at].1@));
    if path.len() == 0 {
        law_where_paths_lead(root, path, table[at].1@);
    } else {
        lemma_table_leads(root, table, path, at);
    }
    law_where_paths_lead(root, path, resolved(table, path));
}

proof fn lemma_table_leads(root: Seq<char>, table: Seq<(String, String)>, path: Seq<char>, at: int)
    requires
        0 <= at < table.len(),
        table[at].0@ == path,
        forall|i: int|
            0 <= i < table.len() ==> leads_to(root, (#[trigger] table[i]).0@, table[i].1@),
    ensures
        template_named(table, path) matches Some(place) && leads_to(root, path, place),
    decreases table.len(),
{
    assert(leads_to(root, table[0].0@, table[0].1@));
    if table[0].0@ != path {
        let rest = table.drop_first();
        assert forall|i: int| 0 <= i < rest.len() implies leads_to(
            root,
            (#[trigger] rest[i]).0@,
            rest[i].1@,
        ) by {
            assert(rest[i] == table[i + 1]);
        }
        assert(rest[at - 1] == table[at]);
        lemma_table_leads(root, rest, path, at - 1);
    }
}

/// Where a path leads from a directory.
fn locate_path(root: &str, path: &str) -> (r: String)
    ensures
        leads_to(root@, path@, r@),
{
    let relative = is_relative(path);
    let joined = join_path(root, path);
    assert(answers_relative(path@, relative));
    assert(makes_joined(root@, path@, joined@));
    place_path(path, relative, joined)
}

/// Where paths lead from a directory. What is relative, and how paths are put
/// together, is for the platform to say.
pub fn locate_paths(root: &str, paths: &Vec<String>) -> (r: Vec<(String, String)>)
    ensures
        tells_of(root@, r@, string_views(paths@)),
{
    let mut table: Vec<(String, String)> = Vec::new();
    let mut i: usize = 0;
    while i < paths.len()
        invariant
            i <= paths@.len(),
            table@.len() == i,
            forall|k: int|
                0 <= k < i ==> (#[trigger] table@[k]).0@ == paths@[k]@ && leads_to(
                    root@,
                    paths@[k]@,
                    table@[k].1@,
                ),
        decreases paths@.len() - i,
    {
        let path = paths[i].as_str();
        table.push((owned(path), locate_path(root, path)));
        i = i + 1;
    }
    table
}

/// The directory of the cache of songs, or the usual one, where there is a cache.
pub open spec fn cache_paths(playback: PlaybackConfig) -> Seq<Seq<char>> {
    match playback.audio_cache {
        Some(cache) => if cache.directory@.len() == 0 {
            seq!["deps/cache/audio"@]
        } else {
            seq![cache.directory@]
        },
        None => Seq::empty(),
    }
}

fn list_cache_path(paths: &mut Vec<String>, playback: &PlaybackConfig)
    ensures
        string_views(final(paths)@) == string_views(old(paths)@) + cache_paths(*playback),
{
    match &playback.audio_cache {
        Some(cache) => {
            if is_empty_text(cache.directory.as_str()) {
                paths.push(owned("deps/cache/audio"));
            } else {
                paths.push(owned(cache.directory.as_str()));
            }
        },
        None => {},
    }
    assert(string_views(paths@) =~= string_views(old(paths)@) + cache_paths(*playback));
}

impl AppConfig {
    /// Puts the paths in their place, as they lead from the directory of the
    /// program.
    pub fn resolve_runtime_paths_from(&mut self, executable_root: &str)
        ensures
            exists|table: Seq<(String, String)>| #[trigger]
                tells_of(executable_root@, table, old(self).path_list()) && final(self).paths_resolved(
                    table,
                    *old(self),
                ),
    {
        let paths = self.runtime_paths();
        let table = locate_paths(executable_root, &paths);
        self.resolve_runtime_paths(&table);
        assert(tells_of(executable_root@, table@, old(self).path_list()));
    }

    /// The configuration in effect that a stored one makes: with what the program
    /// was started with, and all paths as they lead from the directory of the
    /// program.
    pub fn from_db_value_at(
        stored: AppConfig,
        bootstrap: BootstrapConfig,
        executable_root: &str,
    ) -> (r: AppConfig)
        ensures
            exists|table: Seq<(String, String)>| #[trigger]
                tells_of(
                    executable_root@,
                    table,
                    stored.started_with(bootstrap).path_list() + cache_paths(stored.playback),
                ) && r.made_by(table, stored, bootstrap),
    {
        let mut config = stored.start_with(bootstrap);
        let mut paths = config.runtime_paths();
        list_cache_path(&mut paths, &config.playback);
        let table = locate_paths(executable_root, &paths);
        config.resolve_runtime_paths(&table);
        let ghost placed = config;
        config.playback.normalize_audio_cache_paths(&table);
        assert(placed.paths_resolved(table@, stored.started_with(bootstrap)));
        assert(config.made_by(table@, stored, bootstrap));
        config
    }
}

impl BootstrapConfig {
    /// What the program is started with: the database lies where its path leads
    /// from the directory of the program. There has to be such a path.
    pub fn placed(self, executable_root: &str) -> (r: Result<BootstrapConfig, String>)
        ensures
            match r {
                Ok(bootstrap) => {
                    &&& self.error() is None
                    &&& leads_to(
                        executable_root@,
                        self.database_path@,
                        bootstrap.database_path@,
                    )
                    &&& bootstrap == (BootstrapConfig {
                        database_path: bootstrap.database_path,
                        ..self
                    })
                },
                Err(reason) => self.error() == Some(reason@),
            },
    {
        match self.validate() {
            Err(reason) => Err(reason),
            Ok(()) => {
                let led = locate_path(executable_root, self.database_path.as_str());
                Ok(BootstrapConfig { database_path: led, ..self })
            },
        }
    }
}

// ---------------------------------------------------------------------------
// What holds of it
// ---------------------------------------------------------------------------
/// Whether a path of a configuration leads to its place: one that is empty stays so.
pub open spec fn in_place(root: Seq<char>, path: Seq<char>, place: Seq<char>) -> bool {
    if path.len() == 0 {
        place.len() == 0
    } else {
        leads_to(root, path, place)
    }
}

/// Whether a path that may be missing leads to its place.
pub open spec fn in_place_if_any(
    root: Seq<char>,
    path: Option<String>,
    place: Option<String>,
) -> bool {
    match (path, place) {
        (Some(path), Some(place)) => in_place(root, path@, place@),
        (None, None) => true,
        _ => false,
    }
}

proof fn lemma_in_either(a: Seq<Seq<char>>, b: Seq<Seq<char>>)
    ensures
        forall|x: Seq<char>| #[trigger] (a + b).contains(x) <==> a.contains(x) || b.contains(x),
{
    assert forall|x: Seq<char>| #[trigger] (a + b).contains(x) <==> a.contains(x) || b.contains(
        x,
    ) by {
        if a.contains(x) {
            let k = choose|k: int| 0 <= k < a.len() && a[k] == x;
            assert((a + b)[k] == x);
        }
        if b.contains(x) {
            let k = choose|k: int| 0 <= k < b.len() && b[k] == x;
            assert((a + b)[a.len() + k] == x);
        }
        if (a + b).contains(x) {
            let k = choose|k: int| 0 <= k < (a + b).len() && (a + b)[k] == x;
            if k < a.len() {
                assert(a[k] == x);
            } else {
                assert(b[k - a.len()] == x);
            }
        }
    }
}

proof fn lemma_listed(path: Seq<char>)
    ensures
        path.len() > 0 ==> listed(path).contains(path),
{
    if path.len() > 0 {
        assert(listed(path)[0] == path);
    }
}

proof fn lemma_path_list(config: AppConfig)
    ensures
        forall|x: Seq<char>| #[trigger]
            listed_option(config.ocr.det_model).contains(x) ==> config.path_list().contains(x),
        forall|x: Seq<char>| #[trigger]
            listed_option(config.ocr.rec_model).contains(x) ==> config.path_list().contains(x),
        forall|x: Seq<char>| #[trigger]
            listed(config.ocr.charset@).contains(x) ==> config.path_list().contains(x),
        forall|x: Seq<char>| #[trigger]
            listed_option(config.ocr.openvino.det_model).contains(x) ==> config.path_list().contains(x),
        forall|x: Seq<char>| #[trigger]
            listed_option(config.ocr.openvino.det_weights).contains(x) ==> config.path_list().contains(x),
        forall|x: Seq<char>| #[trigger]
            listed_option(config.ocr.openvino.rec_model).contains(x) ==> config.path_list().contains(x),
        forall|x: Seq<char>| #[trigger]
            listed_option(config.ocr.openvino.rec_weights).contains(x) ==> config.path_list().contains(x),
        forall|x: Seq<char>| #[trigger]
            listed_option(config.ocr.openvino.cache_dir).contains(x) ==> config.path_list().contains(x),
        forall|x: Seq<char>| #[trigger]
            listed(config.templates.blue_marker@).contains(x) ==> config.path_list().contains(x),
        forall|x: Seq<char>| #[trigger]
            listed(config.templates.yellow_marker@).contains(x) ==> config.path_list().contains(x),
        forall|x: Seq<char>| #[trigger]
            listed(config.templates.pink_marker@).contains(x) ==> config.path_list().contains(x),
        forall|x: Seq<char>| #[trigger]
            listed(config.templates.friend@).contains(x) ==> config.path_list().contains(x),
        forall|x: Seq<char>| #[trigger]
            listed(config.templates.secondary_back@).contains(x) ==> config.path_list().contains(x),
        forall|x: Seq<char>| #[trigger]
            listed(config.templates.secondary_hall@).contains(x) ==> config.path_list().contains(x),
        forall|x: Seq<char>| #[trigger]
            listed(config.templates.invite_view_star@).contains(x) ==> config.path_list().contains(x),
        forall|x: Seq<char>| #[trigger]
            listed(config.templates.invite_goto_hall@).contains(x) ==> config.path_list().contains(x),
        forall|x: Seq<char>| #[trigger]
            listed(config.templates.invite_enter_hall@).contains(x) ==> config.path_list().contains(x),
        forall|x: Seq<char>| #[trigger]
            listed(config.templates.friend_panel@).contains(x) ==> config.path_list().contains(x),
        forall|x: Seq<char>| #[trigger]
            listed(config.templates.friend_search_panel@).contains(x) ==> config.path_list().contains(x),
        forall|x: Seq<char>| #[trigger]
            listed(config.templates.friend_more_settings@).contains(x) ==> config.path_list().contains(x),
        forall|x: Seq<char>| #[trigger]
            listed(config.templates.friend_block_chat@).contains(x) ==> config.path_list().contains(x),
        forall|x: Seq<char>| #[trigger]
            listed(config.templates.friend_blacklist@).contains(x) ==> config.path_list().contains(x),
        forall|x: Seq<char>| #[trigger]
            listed(config.templates.friend_confirm@).contains(x) ==> config.path_list().contains(x),
        forall|x: Seq<char>| #[trigger]
            listed(config.playback.credential_directory@).contains(x) ==> config.path_list().contains(x),
        forall|x: Seq<char>| #[trigger]
            listed(config.playback.login_helper_executable@).contains(x) ==> config.path_list().contains(x),
        forall|x: Seq<char>| #[trigger]
            listed(config.logging.dir@).contains(x) ==> config.path_list().contains(x),
        forall|x: Seq<char>| #[trigger]
            listed(config.state.playback_state_path@).contains(x) ==> config.path_list().contains(x),
        forall|x: Seq<char>| #[trigger]
            listed(config.state.hall_state_path@).contains(x) ==> config.path_list().contains(x),
        forall|x: Seq<char>| #[trigger]
            listed(config.state.executed_commands_log_path@).contains(x) ==> config.path_list().contains(x),
        forall|x: Seq<char>| #[trigger]
            listed(config.song_dedup.history_path@).contains(x) ==> config.path_list().contains(x),
        forall|x: Seq<char>| #[trigger]
            listed(config.idiom_chain.lexicon_path@).contains(x) ==> config.path_list().contains(x),
        forall|x: Seq<char>| #[trigger]
            listed(config.startup.exe_path@).contains(x) ==> config.path_list().contains(x),
        forall|x: Seq<char>| #[trigger]
            listed(config.startup.templates.wonderland_map_star@).contains(x) ==> config.path_list().contains(x),
        forall|x: Seq<char>| #[trigger]
            listed(config.startup.templates.wonderland_confirm@).contains(x) ==> config.path_list().contains(x),
        forall|x: Seq<char>| #[trigger]
            listed(config.startup.templates.paimon_menu@).contains(x) ==> config.path_list().contains(x),
        forall|x: Seq<char>| #[trigger]
            listed(config.turtle_soup.question_bank_path@).contains(x) ==> config.path_list().contains(x),
        forall|x: Seq<char>| #[trigger]
            listed(config.turtle_soup.used_state_path@).contains(x) ==> config.path_list().contains(x),
        forall|x: Seq<char>| #[trigger]
            listed(config.undercover.word_bank_path@).contains(x) ==> config.path_list().contains(x),
        forall|x: Seq<char>| #[trigger]
            listed(config.undercover.used_state_path@).contains(x) ==> config.path_list().contains(x),
        forall|x: Seq<char>| #[trigger]
            listed_templates(
                config.custom_workflows.templates@,
                config.custom_workflows.templates@.len(),
            ).contains(x) ==> config.path_list().contains(x),
        forall|x: Seq<char>| #[trigger]
            listed_workflows(
                config.custom_workflows.workflows@,
                config.custom_workflows.workflows@.len(),
            ).contains(x) ==> config.path_list().contains(x),
{
    let p0 = listed_option(config.ocr.det_model);
    let p1 = p0 + listed_option(config.ocr.rec_model);
    lemma_in_either(p0, listed_option(config.ocr.rec_model));
    let p2 = p1 + listed(config.ocr.charset@);
    lemma_in_either(p1, listed(config.ocr.charset@));
    let p3 = p2 + listed_option(config.ocr.openvino.det_model);
    lemma_in_either(p2, listed_option(config.ocr.openvino.det_model));
    let p4 = p3 + listed_option(config.ocr.openvino.det_weights);
    lemma_in_either(p3, listed_option(config.ocr.openvino.det_weights));
    let p5 = p4 + listed_option(config.ocr.openvino.rec_model);
    lemma_in_either(p4, listed_option(config.ocr.openvino.rec_model));
    let p6 = p5 + listed_option(config.ocr.openvino.rec_weights);
    lemma_in_either(p5, listed_option(config.ocr.openvino.rec_weights));
    let p7 = p6 + listed_option(config.ocr.openvino.cache_dir);
    lemma_in_either(p6, listed_option(config.ocr.openvino.cache_dir));
    let p8 = p7 + listed(config.templates.blue_marker@);
    lemma_in_either(p7, listed(config.templates.blue_marker@));
    let p9 = p8 + listed(config.templates.yellow_marker@);
    lemma_in_either(p8, listed(config.templates.yellow_marker@));
    let p10 = p9 + listed(config.templates.pink_marker@);
    lemma_in_either(p9, listed(config.templates.pink_marker@));
    let p11 = p10 + listed(config.templates.friend@);
    lemma_in_either(p10, listed(config.templates.friend@));
    let p12 = p11 + listed(config.templates.secondary_back@);
    lemma_in_either(p11, listed(config.templates.secondary_back@));
    let p13 = p12 + listed(config.templates.secondary_hall@);
    lemma_in_either(p12, listed(config.templates.secondary_hall@));
    let p14 = p13 + listed(config.templates.invite_view_star@);
    lemma_in_either(p13, listed(config.templates.invite_view_star@));
    let p15 = p14 + listed(config.templates.invite_goto_hall@);
    lemma_in_either(p14, listed(config.templates.invite_goto_hall@));
    let p16 = p15 + listed(config.templates.invite_enter_hall@);
    lemma_in_either(p15, listed(config.templates.invite_enter_hall@));
    let p17 = p16 + listed(config.templates.friend_panel@);
    lemma_in_either(p16, listed(config.templates.friend_panel@));
    let p18 = p17 + listed(config.templates.friend_search_panel@);
    lemma_in_either(p17, listed(config.templates.friend_search_panel@));
    let p19 = p18 + listed(config.templates.friend_more_settings@);
    lemma_in_either(p18, listed(config.templates.friend_more_settings@));
    let p20 = p19 + listed(config.templates.friend_block_chat@);
    lemma_in_either(p19, listed(config.templates.friend_block_chat@));
    let p21 = p20 + listed(config.templates.friend_blacklist@);
    lemma_in_either(p20, listed(config.templates.friend_blacklist@));
    let p22 = p21 + listed(config.templates.friend_confirm@);
    lemma_in_either(p21, listed(config.templates.friend_confirm@));
    let p23 = p22 + listed(config.playback.credential_directory@);
    lemma_in_either(p22, listed(config.playback.credential_directory@));
    let p24 = p23 + listed(config.playback.login_helper_executable@);
    lemma_in_either(p23, listed(config.playback.login_helper_executable@));
    let p25 = p24 + listed(config.logging.dir@);
    lemma_in_either(p24, listed(config.logging.dir@));
    let p26 = p25 + listed(config.state.playback_state_path@);
    lemma_in_either(p25, listed(config.state.playback_state_path@));
    let p27 = p26 + listed(config.state.hall_state_path@);
    lemma_in_either(p26, listed(config.state.hall_state_path@));
    let p28 = p27 + listed(config.state.executed_commands_log_path@);
    lemma_in_either(p27, listed(config.state.executed_commands_log_path@));
    let p29 = p28 + listed(config.song_dedup.history_path@);
    lemma_in_either(p28, listed(config.song_dedup.history_path@));
    let p30 = p29 + listed(config.idiom_chain.lexicon_path@);
    lemma_in_either(p29, listed(config.idiom_chain.lexicon_path@));
    let p31 = p30 + listed(config.startup.exe_path@);
    lemma_in_either(p30, listed(config.startup.exe_path@));
    let p32 = p31 + listed(config.startup.templates.wonderland_map_star@);
    lemma_in_either(p31, listed(config.startup.templates.wonderland_map_star@));
    let p33 = p32 + listed(config.startup.templates.wonderland_confirm@);
    lemma_in_either(p32, listed(config.startup.templates.wonderland_confirm@));
    let p34 = p33 + listed(config.startup.templates.paimon_menu@);
    lemma_in_either(p33, listed(config.startup.templates.paimon_menu@));
    let p35 = p34 + listed(config.turtle_soup.question_bank_path@);
    lemma_in_either(p34, listed(config.turtle_soup.question_bank_path@));
    let p36 = p35 + listed(config.turtle_soup.used_state_path@);
    lemma_in_either(p35, listed(config.turtle_soup.used_state_path@));
    let p37 = p36 + listed(config.undercover.word_bank_path@);
    lemma_in_either(p36, listed(config.undercover.word_bank_path@));
    let p38 = p37 + listed(config.undercover.used_state_path@);
    lemma_in_either(p37, listed(config.undercover.used_state_path@));
    let templates = listed_templates(
        config.custom_workflows.templates@,
        config.custom_workflows.templates@.len(),
    );
    let workflows = listed_workflows(
        config.custom_workflows.workflows@,
        config.custom_workflows.workflows@.len(),
    );
    lemma_in_either(templates, workflows);
    lemma_in_either(p38, templates + workflows);
    assert(config.path_list() == p38 + (templates + workflows));
}

proof fn lemma_listed_template(templates: Seq<(String, String)>, n: nat, i: int)
    requires
        0 <= i < n <= templates.len(),
        templates[i].1@.len() > 0,
    ensures
        listed_templates(templates, n).contains(templates[i].1@),
    decreases n,
{
    let fewer = listed_templates(templates, (n - 1) as nat);
    lemma_in_either(fewer, listed(templates[n - 1].1@));
    lemma_listed(templates[n - 1].1@);
    if i < n - 1 {
        lemma_listed_template(templates, (n - 1) as nat, i);
    }
}

proof fn lemma_listed_step(steps: Seq<CustomWorkflowStep>, n: nat, i: int)
    requires
        0 <= i < n <= steps.len(),
        steps[i].template is Some,
        steps[i].template->0@.len() > 0,
    ensures
        listed_steps(steps, n).contains(steps[i].template->0@),
    decreases n,
{
    let fewer = listed_steps(steps, (n - 1) as nat);
    lemma_in_either(fewer, listed_option(steps[n - 1].template));
    if i < n - 1 {
        lemma_listed_step(steps, (n - 1) as nat, i);
    } else {
        lemma_listed(steps[i].template->0@);
    }
}

proof fn lemma_listed_workflow(
    workflows: Seq<CustomWorkflowDefinition>,
    n: nat,
    i: int,
    path: Seq<char>,
)
    requires
        0 <= i < n <= workflows.len(),
        listed_steps(workflows[i].steps@, workflows[i].steps@.len()).contains(path),
    ensures
        listed_workflows(workflows, n).contains(path),
    decreases n,
{
    let fewer = listed_workflows(workflows, (n - 1) as nat);
    let last = workflows[n - 1];
    lemma_in_either(fewer, listed_steps(last.steps@, last.steps@.len()));
    if i < n - 1 {
        lemma_listed_workflow(workflows, (n - 1) as nat, i, path);
    }
}

proof fn lemma_led(
    root: Seq<char>,
    table: Seq<(String, String)>,
    paths: Seq<Seq<char>>,
    path: Seq<char>,
)
    requires
        tells_of(root, table, paths),
        path.len() > 0 ==> paths.contains(path),
    ensures
        in_place(root, path, resolved(table, path)),
{
    if path.len() > 0 {
        law_path_leads_under_root(root, table, paths, path);
    }
}

/// Each file of the reader of texts leads from the directory of the program.
pub proof fn law_models_are_in_place(
    root: Seq<char>,
    table: Seq<(String, String)>,
    before: AppConfig,
    after: AppConfig,
)
    requires
        tells_of(root, table, before.path_list()),
        after.paths_resolved(table, before),
    ensures
        in_place_if_any(root, before.ocr.det_model, after.ocr.det_model),
        in_place_if_any(root, before.ocr.rec_model, after.ocr.rec_model),
        in_place(root, before.ocr.charset@, after.ocr.charset@),
        in_place_if_any(root, before.ocr.openvino.det_model, after.ocr.openvino.det_model),
        in_place_if_any(root, before.ocr.openvino.det_weights, after.ocr.openvino.det_weights),
        in_place_if_any(root, before.ocr.openvino.rec_model, after.ocr.openvino.rec_model),
        in_place_if_any(root, before.ocr.openvino.rec_weights, after.ocr.openvino.rec_weights),
        in_place_if_any(root, before.ocr.openvino.cache_dir, after.ocr.openvino.cache_dir),
{
    lemma_path_list(before);
    let paths = before.path_list();
    if before.ocr.det_model is Some {
        lemma_listed(before.ocr.det_model->0@);
        lemma_led(root, table, paths, before.ocr.det_model->0@);
    }
    if before.ocr.rec_model is Some {
        lemma_listed(before.ocr.rec_model->0@);
        lemma_led(root, table, paths, before.ocr.rec_model->0@);
    }
    lemma_listed(before.ocr.charset@);
    lemma_led(root, table, paths, before.ocr.charset@);
    if before.ocr.openvino.det_model is Some {
        lemma_listed(before.ocr.openvino.det_model->0@);
        lemma_led(root, table, paths, before.ocr.openvino.det_model->0@);
    }
    if before.ocr.openvino.det_weights is Some {
        lemma_listed(before.ocr.openvino.det_weights->0@);
        lemma_led(root, table, paths, before.ocr.openvino.det_weights->0@);
    }
    if before.ocr.openvino.rec_model is Some {
        lemma_listed(before.ocr.openvino.rec_model->0@);
        lemma_led(root, table, paths, before.ocr.openvino.rec_model->0@);
    }
    if before.ocr.openvino.rec_weights is Some {
        lemma_listed(before.ocr.openvino.rec_weights->0@);
        lemma_led(root, table, paths, before.ocr.openvino.rec_weights->0@);
    }
    if before.ocr.openvino.cache_dir is Some {
        lemma_listed(before.ocr.openvino.cache_dir->0@);
        lemma_led(root, table, paths, before.ocr.openvino.cache_dir->0@);
    }
}

/// Each picture leads from the directory of the program.
pub proof fn law_pictures_are_in_place(
    root: Seq<char>,
    table: Seq<(String, String)>,
    before: AppConfig,
    after: AppConfig,
)
    requires
        tells_of(root, table, before.path_list()),
        after.paths_resolved(table, before),
    ensures
        in_place(root, before.templates.blue_marker@, after.templates.blue_marker@),
        in_place(root, before.templates.yellow_marker@, after.templates.yellow_marker@),
        in_place(root, before.templates.pink_marker@, after.templates.pink_marker@),
        in_place(root, before.templates.friend@, after.templates.friend@),
        in_place(root, before.templates.secondary_back@, after.templates.secondary_back@),
        in_place(root, before.templates.secondary_hall@, after.templates.secondary_hall@),
        in_place(root, before.templates.invite_view_star@, after.templates.invite_view_star@),
        in_place(root, before.templates.invite_goto_hall@, after.templates.invite_goto_hall@),
        in_place(root, before.templates.invite_enter_hall@, after.templates.invite_enter_hall@),
        in_place(root, before.templates.friend_panel@, after.templates.friend_panel@),
        in_place(root, before.templates.friend_search_panel@, after.templates.friend_search_panel@),
        in_place(root, before.templates.friend_more_settings@, after.templates.friend_more_settings@),
        in_place(root, before.templates.friend_block_chat@, after.templates.friend_block_chat@),
        in_place(root, before.templates.friend_blacklist@, after.templates.friend_blacklist@),
        in_place(root, before.templates.friend_confirm@, after.templates.friend_confirm@),
{
    lemma_path_list(before);
    let paths = before.path_list();
    lemma_listed(before.templates.blue_marker@);
    lemma_led(root, table, paths, before.templates.blue_marker@);
    lemma_listed(before.templates.yellow_marker@);
    lemma_led(root, table, paths, before.templates.yellow_marker@);
    lemma_listed(before.templates.pink_marker@);
    lemma_led(root, table, paths, before.templates.pink_marker@);
    lemma_listed(before.templates.friend@);
    lemma_led(root, table, paths, before.templates.friend@);
    lemma_listed(before.templates.secondary_back@);
    lemma_led(root, table, paths, before.templates.secondary_back@);
    lemma_listed(before.templates.secondary_hall@);
    lemma_led(root, table, paths, before.templates.secondary_hall@);
    lemma_listed(before.templates.invite_view_star@);
    lemma_led(root, table, paths, before.templates.invite_view_star@);
    lemma_listed(before.templates.invite_goto_hall@);
    lemma_led(root, table, paths, before.templates.invite_goto_hall@);
    lemma_listed(before.templates.invite_enter_hall@);
    lemma_led(root, table, paths, before.templates.invite_enter_hall@);
    lemma_listed(before.templates.friend_panel@);
    lemma_led(root, table, paths, before.templates.friend_panel@);
    lemma_listed(before.templates.friend_search_panel@);
    lemma_led(root, table, paths, before.templates.friend_search_panel@);
    lemma_listed(before.templates.friend_more_settings@);
    lemma_led(root, table, paths, before.templates.friend_more_settings@);
    lemma_listed(before.templates.friend_block_chat@);
    lemma_led(root, table, paths, before.templates.friend_block_chat@);
    lemma_listed(before.templates.friend_blacklist@);
    lemma_led(root, table, paths, before.templates.friend_blacklist@);
    lemma_listed(before.templates.friend_confirm@);
    lemma_led(root, table, paths, before.templates.friend_confirm@);
}

/// Each other file leads from the directory of the program: those of the player, the log,
/// the state, the games and the start of the game.
pub proof fn law_files_are_in_place(
    root: Seq<char>,
    table: Seq<(String, String)>,
    before: AppConfig,
    after: AppConfig,
)
    requires
        tells_of(root, table, before.path_list()),
        after.paths_resolved(table, before),
    ensures
        in_place(root, before.playback.credential_directory@, after.playback.credential_directory@),
        in_place(root, before.playback.login_helper_executable@, after.playback.login_helper_executable@),
        in_place(root, before.logging.dir@, after.logging.dir@),
        in_place(root, before.state.playback_state_path@, after.state.playback_state_path@),
        in_place(root, before.state.hall_state_path@, after.state.hall_state_path@),
        in_place(root, before.state.executed_commands_log_path@, after.state.executed_commands_log_path@),
        in_place(root, before.song_dedup.history_path@, after.song_dedup.history_path@),
        in_place(root, before.idiom_chain.lexicon_path@, after.idiom_chain.lexicon_path@),
        in_place(root, before.startup.exe_path@, after.startup.exe_path@),
        in_place(root, before.startup.templates.wonderland_map_star@, after.startup.templates.wonderland_map_star@),
        in_place(root, before.startup.templates.wonderland_confirm@, after.startup.templates.wonderland_confirm@),
        in_place(root, before.startup.templates.paimon_menu@, after.startup.templates.paimon_menu@),
        in_place(root, before.turtle_soup.question_bank_path@, after.turtle_soup.question_bank_path@),
        in_place(root, before.turtle_soup.used_state_path@, after.turtle_soup.used_state_path@),
        in_place(root, before.undercover.word_bank_path@, after.undercover.word_bank_path@),
        in_place(root, before.undercover.used_state_path@, after.undercover.used_state_path@),
{
    lemma_path_list(before);
    let paths = before.path_list();
    lemma_listed(before.playback.credential_directory@);
    lemma_led(root, table, paths, before.playback.credential_directory@);
    lemma_listed(before.playback.login_helper_executable@);
    lemma_led(root, table, paths, before.playback.login_helper_executable@);
    lemma_listed(before.logging.dir@);
    lemma_led(root, table, paths, before.logging.dir@);
    lemma_listed(before.state.playback_state_path@);
    lemma_led(root, table, paths, before.state.playback_state_path@);
    lemma_listed(before.state.hall_state_path@);
    lemma_led(root, table, paths, before.state.hall_state_path@);
    lemma_listed(before.state.executed_commands_log_path@);
    lemma_led(root, table, paths, before.state.executed_commands_log_path@);
    lemma_listed(before.song_dedup.history_path@);
    lemma_led(root, table, paths, before.song_dedup.history_path@);
    lemma_listed(before.idiom_chain.lexicon_path@);
    lemma_led(root, table, paths, before.idiom_chain.lexicon_path@);
    lemma_listed(before.startup.exe_path@);
    lemma_led(root, table, paths, before.startup.exe_path@);
    lemma_listed(before.startup.templates.wonderland_map_star@);
    lemma_led(root, table, paths, before.startup.templates.wonderland_map_star@);
    lemma_listed(before.startup.templates.wonderland_confirm@);
    lemma_led(root, table, paths, before.startup.templates.wonderland_confirm@);
    lemma_listed(before.startup.templates.paimon_menu@);
    lemma_led(root, table, paths, before.startup.templates.paimon_menu@);
    lemma_listed(before.turtle_soup.question_bank_path@);
    lemma_led(root, table, paths, before.turtle_soup.question_bank_path@);
    lemma_listed(before.turtle_soup.used_state_path@);
    lemma_led(root, table, paths, before.turtle_soup.used_state_path@);
    lemma_listed(before.undercover.word_bank_path@);
    lemma_led(root, table, paths, before.undercover.word_bank_path@);
    lemma_listed(before.undercover.used_state_path@);
    lemma_led(root, table, paths, before.undercover.used_state_path@);
}

/// Each picture of the workflows leads from the directory of the program, and so does each
/// picture that a step names by its path; one that it names by the name of a picture stays.
pub proof fn law_workflow_pictures_are_in_place(
    root: Seq<char>,
    table: Seq<(String, String)>,
    before: AppConfig,
    after: AppConfig,
    i: int,
    j: int,
)
    requires
        tells_of(root, table, before.path_list()),
        after.paths_resolved(table, before),
    ensures
        0 <= i < before.custom_workflows.templates@.len() ==> {
            let (from, to) = (
                before.custom_workflows.templates@[i],
                after.custom_workflows.templates@[i],
            );
            to.0 == from.0 && in_place(root, from.1@, to.1@)
        },
        0 <= i < before.custom_workflows.workflows@.len() && 0 <= j
            < before.custom_workflows.workflows@[i].steps@.len() ==> {
            let from = before.custom_workflows.workflows@[i].steps@[j];
            let to = after.custom_workflows.workflows@[i].steps@[j];
            &&& from.template is None ==> to.template is None
            &&& from.template matches Some(path) ==> {
                &&& to.template matches Some(place)
                &&& template_named(before.custom_workflows.templates@, path@) is Some ==> place@
                    == path@
                &&& template_named(before.custom_workflows.templates@, path@) is None ==> in_place(
                    root,
                    path@,
                    place@,
                )
            }
        },
{
    lemma_path_list(before);
    let paths = before.path_list();
    let templates = before.custom_workflows.templates@;
    let workflows = before.custom_workflows.workflows@;
    if 0 <= i < templates.len() {
        if templates[i].1@.len() > 0 {
            lemma_listed_template(templates, templates.len(), i);
        }
        lemma_led(root, table, paths, templates[i].1@);
        assert(after.custom_workflows.templates@[i].0 == templates[i].0);
    }
    if 0 <= i < workflows.len() && 0 <= j < workflows[i].steps@.len() {
        let step = workflows[i].steps@[j];
        if step.template is Some {
            if step.template->0@.len() > 0 {
                lemma_listed_step(workflows[i].steps@, workflows[i].steps@.len(), j);
                lemma_listed_workflow(workflows, workflows.len(), i, step.template->0@);
            }
            lemma_led(root, table, paths, step.template->0@);
        }
        assert(workflow_resolved(
            table,
            templates,
            workflows[i],
            after.custom_workflows.workflows@[i],
        ));
        assert(step_resolved(
            table,
            templates,
            step,
            after.custom_workflows.workflows@[i].steps@[j],
        ));
    }
}

/// What the program was started with takes the place of what is not stored, and nothing
/// else changes.
pub proof fn law_started_with(stored: AppConfig, bootstrap: BootstrapConfig)
    ensures
        ({
            let config = stored.started_with(bootstrap);
            &&& config.http == bootstrap.http
            &&& config.logging == bootstrap.logging
            &&& config.state.playback_state_path == bootstrap.database_path
            &&& config.state.hall_state_path == stored.state.hall_state_path
            &&& config == (AppConfig {
                http: config.http,
                logging: config.logging,
                state: config.state,
                ..stored
            })
        }),
{
}

/// Where no directory is given for the cache it lies under `deps/cache/audio`; without a
/// cache no place is looked for.
pub proof fn law_where_the_cache_is(playback: PlaybackConfig)
    ensures
        playback.audio_cache is None ==> cache_paths(playback).len() == 0,
        playback.audio_cache matches Some(cache) ==> {
            &&& cache_paths(playback).len() == 1
            &&& cache.directory@.len() > 0 ==> cache_paths(playback)[0] == cache.directory@
            &&& cache.directory@.len() == 0 ==> cache_paths(playback)[0] == "deps/cache/audio"@
        },
{
}

} // verus!
