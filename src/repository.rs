//! The feature sets of the remote repository and the decisions of each
//! operation on them.
//!
//! A feature set is a directory at the root of the repository. Its scripts
//! lie under its `scripts` folder; every other file in it is a configuration
//! file. The functions here take what the server answered and say what to
//! request, read or write next.
use crate::client::{GiteaClient, Request};
use crate::config::RusteaConfiguration;
use crate::content::{listing_of, opt_view, ContentType, ContentsResponse, EntryView, Json};
use crate::error::Error;
use crate::paths::{local_path_of, remote_path_of, to_local_path, to_remote_path};
use crate::text::{concat, ends_with, is_prefix, is_suffix, starts_with, str_eq, strings_view};
use vstd::prelude::*;

verus! {

/// Some entry of the listing bears the name.
pub open spec fn has_feature_set(listing: Seq<EntryView>, name: Seq<char>) -> bool {
    exists|i: int| 0 <= i < listing.len() && (#[trigger] listing[i]).name == name
}

/// The client of one remote repository, with its configuration.
pub struct RemoteRepository {
    pub config: RusteaConfiguration,
    pub api: GiteaClient,
}

impl RemoteRepository {
    /// The client for the repository that the configuration names.
    pub fn new(config: RusteaConfiguration) -> (r: RemoteRepository)
        ensures
            r.config == config,
            r.api.url@ == config.repo.url@,
            r.api.api_token@ == config.repo.api_token@,
            r.api.repository@ == config.repo.repository@,
            r.api.owner@ == config.repo.owner@,
    {
        let api = GiteaClient::new(
            config.repo.url.as_str(),
            config.repo.api_token.as_str(),
            config.repo.repository.as_str(),
            config.repo.owner.as_str(),
        );
        RemoteRepository { config, api }
    }

    /// The title of a listing: the feature set's name, or without one, the
    /// repository's.
    pub fn list_title(&self, feature_set: &Option<String>) -> (r: String)
        ensures
            r@ == match feature_set {
                Some(n) => n@,
                None => self.config.repo.repository@,
            },
    {
        match feature_set {
            Some(n) => n.clone(),
            None => self.config.repo.repository.clone(),
        }
    }

    /// The request that lists the repository's root, where the feature sets are.
    pub fn feature_sets_request(&self) -> (r: Request)
        ensures
            r.method == crate::client::Method::Get,
            r.url@ == self.api.contents_url(Seq::empty()),
            r.authorization@ == self.api.authorization(),
            r.body is None,
    {
        proof {
            reveal_strlit("");
        }
        self.api.contents_request("")
    }

    /// The feature sets: the directories of the root listing.
    pub fn get_feature_sets(root: Json) -> (r: Result<ContentsResponse, Error>)
        ensures
            match listing_of(root, Some(ContentType::Dir)) {
                Some(l) => r matches Ok(c) && c@ == l,
                None => r matches Err(Error::Api(e)) && e is InvalidContentResponse,
            },
    {
        match ContentsResponse::new(root, Some(ContentType::Dir)) {
            Ok(c) => Ok(c),
            Err(e) => Err(Error::Api(e)),
        }
    }

    /// Whether the root listing holds a feature set of the given name.
    pub fn check_feature_set_exists(root: Json, name: &str) -> (r: Result<bool, Error>)
        ensures
            match listing_of(root, Some(ContentType::Dir)) {
                Some(l) => r == Ok::<bool, Error>(has_feature_set(l, name@)),
                None => r matches Err(Error::Api(e)) && e is InvalidContentResponse,
            },
    {
        let sets = match Self::get_feature_sets(root) {
            Ok(c) => c,
            Err(e) => {
                return Err(e);
            },
        };
        Ok(feature_set_in(&sets, name))
    }
}

/// Only a directory of the root counts as a feature set: the listing that
/// the existence check reads holds directories alone.
pub proof fn law_feature_sets_are_directories(root: Json, name: Seq<char>)
    requires
        listing_of(root, Some(ContentType::Dir)) is Some,
        has_feature_set(listing_of(root, Some(ContentType::Dir))->0, name),
    ensures
        exists|i: int|
            0 <= i < listing_of(root, Some(ContentType::Dir))->0.len() && (#[trigger] listing_of(
                root,
                Some(ContentType::Dir),
            )->0[i]).name == name && listing_of(root, Some(ContentType::Dir))->0[i].content_type
                == ContentType::Dir,
{
    let l = listing_of(root, Some(ContentType::Dir))->0;
    let i = choose|i: int| 0 <= i < l.len() && (#[trigger] l[i]).name == name;
    crate::content::law_listing_holds_filtered_kind(root, ContentType::Dir, i);
}

/// Whether some entry of the listing bears the name.
pub fn feature_set_in(listing: &ContentsResponse, name: &str) -> (r: bool)
    ensures
        r == has_feature_set(listing@, name@),
{
    let n = listing.content.len();
    let mut i: usize = 0;
    while i < n
        invariant
            n == listing@.len(),
            n == listing.content@.len(),
            i <= n,
            forall|j: int| 0 <= j < i ==> (#[trigger] listing@[j]).name != name@,
        decreases n - i,
    {
        if str_eq(listing.content[i].name.as_str(), name) {
            assert(listing@[i as int].name == name@);
            return true;
        }
        i = i + 1;
    }
    false
}

/// The error of an operation on a feature set that does not exist.
pub fn require_feature_set(exists: bool, name: &str) -> (r: Result<(), Error>)
    ensures
        exists ==> r is Ok,
        !exists ==> (r matches Err(Error::Rustea(m)) && m@ == "No features set named "@ + name@),
{
    if exists {
        Ok(())
    } else {
        Err(Error::Rustea(concat("No features set named ", name)))
    }
}

/// The placeholder that keeps a feature set's directory.
pub open spec fn root_placeholder() -> Seq<char> {
    "/.gitkeep"@
}

/// The placeholder that keeps a feature set's scripts folder.
pub open spec fn scripts_placeholder() -> Seq<char> {
    "/scripts/.gitkeep"@
}

/// The files, relative to the feature set, that creating it writes: none
/// where it exists, else the placeholders of its directory and of its
/// scripts folder, both empty.
pub fn new_feature_set_files(exists: bool) -> (r: Vec<String>)
    ensures
        exists ==> r@.len() == 0,
        !exists ==> r@.len() == 2 && r@[0]@ == root_placeholder() && r@[1]@ == scripts_placeholder(),
{
    let mut v: Vec<String> = Vec::new();
    if !exists {
        v.push("/.gitkeep".to_owned());
        v.push("/scripts/.gitkeep".to_owned());
    }
    v
}

/// The remote path that a deletion starts from, and whether it recurses:
/// a script of the feature set alone, a configuration file or folder with
/// the caller's choice, or the whole feature set, always recursively.
pub open spec fn delete_target_of(name: Seq<char>, path: Option<Seq<char>>, script: bool, recursive: bool) -> (
    Seq<char>,
    bool,
) {
    match path {
        Some(p) => if script {
            (name + "/scripts/"@ + p, false)
        } else {
            (name + "/"@ + p, recursive)
        },
        None => (name, true),
    }
}

/// Where a deletion in a feature set starts, and whether it recurses.
pub fn delete_target(name: &str, path: &Option<String>, script: bool, recursive: bool) -> (r: (
    String,
    bool,
))
    ensures
        (r.0@, r.1) == delete_target_of(name@, opt_view(*path), script, recursive),
{
    match path {
        Some(p) => if script {
            let a = concat(name, "/scripts/");
            (concat(a.as_str(), p.as_str()), false)
        } else {
            let a = concat(name, "/");
            (concat(a.as_str(), p.as_str()), recursive)
        },
        None => (name.to_owned(), true),
    }
}

/// A local file that may be pushed to a feature set, and whether it is a script.
#[derive(Debug)]
pub struct PushCandidate {
    pub local_path: String,
    pub script: bool,
}

/// A remote file of the feature set is a script.
pub open spec fn is_remote_script(name: Seq<char>, path: Seq<char>) -> bool {
    is_prefix(name + "/scripts/"@, path)
}

/// The local counterparts of the files of a feature set, in order: where a
/// script or a configuration file of each would be kept locally. `None` where
/// a path holds no `/`.
pub open spec fn push_candidates_of(name: Seq<char>, files: Seq<EntryView>, script_dir: Seq<char>) -> Option<
    Seq<(Seq<char>, bool)>,
>
    decreases files.len(),
{
    if files.len() == 0 {
        Some(Seq::empty())
    } else {
        let e = files.last();
        let script = is_remote_script(name, e.path);
        match (push_candidates_of(name, files.drop_last(), script_dir), local_path_of(e.path, script, script_dir)) {
            (Some(c), Some(l)) => Some(c.push((l, script))),
            _ => None,
        }
    }
}

proof fn lemma_candidates_prefix_fails(name: Seq<char>, files: Seq<EntryView>, script_dir: Seq<char>, k: int)
    requires
        0 <= k <= files.len(),
        push_candidates_of(name, files.subrange(0, k), script_dir) is None,
    ensures
        push_candidates_of(name, files, script_dir) is None,
    decreases files.len(),
{
    if k == files.len() {
        assert(files.subrange(0, k) =~= files);
    } else {
        assert(files.drop_last().subrange(0, k) =~= files.subrange(0, k));
        lemma_candidates_prefix_fails(name, files.drop_last(), script_dir, k);
    }
}

impl PushCandidate {
    pub open spec fn view(&self) -> (Seq<char>, bool) {
        (self.local_path@, self.script)
    }
}

/// The views of some candidates.
pub open spec fn candidates_view(v: Seq<PushCandidate>) -> Seq<(Seq<char>, bool)> {
    v.map_values(|c: PushCandidate| c.view())
}

impl RemoteRepository {
    /// For a push of the whole feature set `name`: the local counterpart of
    /// each of its remote files (as the walk of the feature set listed them),
    /// in order.
    pub fn push_candidates(&self, name: &str, files: &ContentsResponse) -> (r: Result<Vec<PushCandidate>, Error>)
        ensures
            match push_candidates_of(name@, files@, self.config.script_folder@) {
                Some(c) => r matches Ok(v) && candidates_view(v@) == c,
                None => r matches Err(e) && e is Io,
            },
    {
        let script_remote = concat(name, "/scripts/");
        let n = files.content.len();
        let mut out: Vec<PushCandidate> = Vec::new();
        let mut i: usize = 0;
        assert(files@.subrange(0, 0) =~= Seq::<EntryView>::empty());
        while i < n
            invariant
                n == files@.len(),
                n == files.content@.len(),
                i <= n,
                script_remote@ == name@ + "/scripts/"@,
                push_candidates_of(name@, files@.subrange(0, i as int), self.config.script_folder@)
                    == Some(candidates_view(out@)),
            decreases n - i,
        {
            let ghost sub = files@.subrange(0, i + 1);
            assert(sub.drop_last() =~= files@.subrange(0, i as int));
            assert(sub.last() == files@[i as int]);
            let path = files.content[i].path.as_str();
            let script = starts_with(path, script_remote.as_str());
            match to_local_path(path, script, self.config.script_folder.as_str()) {
                Ok(l) => {
                    let ghost before = out@;
                    let c = PushCandidate { local_path: l, script };
                    out.push(c);
                    assert(candidates_view(out@) =~= candidates_view(before).push(c.view()));
                },
                Err(e) => {
                    proof {
                        lemma_candidates_prefix_fails(name@, files@, self.config.script_folder@, i + 1);
                    }
                    return Err(e);
                },
            }
            i = i + 1;
        }
        assert(files@.subrange(0, n as int) =~= files@);
        Ok(out)
    }
}

/// The candidates whose local file is present, in order.
pub open spec fn present_only(c: Seq<(Seq<char>, bool)>, present: Seq<bool>) -> Seq<(Seq<char>, bool)>
    decreases c.len(),
{
    if c.len() == 0 || present.len() == 0 {
        Seq::empty()
    } else if present.last() {
        present_only(c.drop_last(), present.drop_last()).push(c.last())
    } else {
        present_only(c.drop_last(), present.drop_last())
    }
}

/// The candidates whose local file is present (as `present` says of each, in
/// the same order); the others are passed over.
pub fn select_present(candidates: Vec<PushCandidate>, present: &Vec<bool>) -> (r: Vec<PushCandidate>)
    requires
        candidates@.len() == present@.len(),
    ensures
        candidates_view(r@) == present_only(candidates_view(candidates@), present@),
{
    let ghost all = candidates_view(candidates@);
    let ghost pres = present@;
    let n = present.len();
    let mut out: Vec<PushCandidate> = Vec::new();
    let mut rest = candidates;
    let mut i: usize = 0;
    assert(all.subrange(0, 0) =~= Seq::<(Seq<char>, bool)>::empty());
    assert(all.subrange(0, n as int) =~= all);
    while i < n
        invariant
            n == pres.len(),
            n == all.len(),
            pres == present@,
            i <= n,
            candidates_view(rest@) == all.subrange(i as int, n as int),
            candidates_view(out@) == present_only(all.subrange(0, i as int), pres.subrange(0, i as int)),
        decreases n - i,
    {
        let ghost before_rest = rest@;
        let ghost before_out = out@;
        proof {
            assert(candidates_view(before_rest).len() == before_rest.len());
            assert(candidates_view(before_rest)[0] == before_rest[0].view());
        }
        let c = rest.remove(0);
        proof {
            assert(candidates_view(rest@) =~= candidates_view(before_rest).drop_first());
            assert(c.view() == all[i as int]);
            let sa = all.subrange(0, i + 1);
            let sp = pres.subrange(0, i + 1);
            assert(sa.drop_last() =~= all.subrange(0, i as int));
            assert(sp.drop_last() =~= pres.subrange(0, i as int));
            assert(sa.last() == all[i as int]);
            assert(sp.last() == pres[i as int]);
        }
        if present[i] {
            out.push(c);
            assert(candidates_view(out@) =~= candidates_view(before_out).push(c.view()));
        }
        i = i + 1;
    }
    assert(pres.subrange(0, n as int) =~= pres);
    out
}

/// A push of a whole feature set writes only candidates whose local file is
/// present: every candidate it keeps is one of those marked present.
pub proof fn law_push_skips_absent(c: Seq<(Seq<char>, bool)>, present: Seq<bool>, j: int)
    requires
        c.len() == present.len(),
        0 <= j < present_only(c, present).len(),
    ensures
        exists|i: int| 0 <= i < c.len() && present[i] && c[i] == present_only(c, present)[j],
    decreases c.len(),
{
    let rest = present_only(c.drop_last(), present.drop_last());
    if present.last() && j == rest.len() {
        assert(c[c.len() - 1] == present_only(c, present)[j]);
    } else {
        law_push_skips_absent(c.drop_last(), present.drop_last(), j);
        let i = choose|i: int|
            0 <= i < c.drop_last().len() && present.drop_last()[i] && c.drop_last()[i] == rest[j];
        assert(c[i] == c.drop_last()[i]);
    }
}

/// The remote paths, relative to the feature set, of local files pushed as
/// scripts or as configuration files.
pub open spec fn remote_paths_of(files: Seq<String>, script: bool) -> Option<Seq<Seq<char>>>
    decreases files.len(),
{
    if files.len() == 0 {
        Some(Seq::empty())
    } else {
        match (remote_paths_of(files.drop_last(), script), remote_path_of(files.last()@, script)) {
            (Some(r), Some(p)) => Some(r.push(p)),
            _ => None,
        }
    }
}

proof fn lemma_remote_paths_prefix_fails(files: Seq<String>, script: bool, k: int)
    requires
        0 <= k <= files.len(),
        remote_paths_of(files.subrange(0, k), script) is None,
    ensures
        remote_paths_of(files, script) is None,
    decreases files.len(),
{
    if k == files.len() {
        assert(files.subrange(0, k) =~= files);
    } else {
        assert(files.drop_last().subrange(0, k) =~= files.subrange(0, k));
        lemma_remote_paths_prefix_fails(files.drop_last(), script, k);
    }
}

/// For a push of local files: the remote path of each, in order.
pub fn push_targets(files: &Vec<String>, script: bool) -> (r: Result<Vec<String>, Error>)
    ensures
        match remote_paths_of(files@, script) {
            Some(p) => r matches Ok(v) && strings_view(v@) == p,
            None => r matches Err(e) && e is Io,
        },
{
    let n = files.len();
    let mut out: Vec<String> = Vec::new();
    let mut i: usize = 0;
    assert(files@.subrange(0, 0) =~= Seq::<String>::empty());
    while i < n
        invariant
            n == files@.len(),
            i <= n,
            remote_paths_of(files@.subrange(0, i as int), script) == Some(strings_view(out@)),
        decreases n - i,
    {
        let ghost sub = files@.subrange(0, i + 1);
        assert(sub.drop_last() =~= files@.subrange(0, i as int));
        assert(sub.last() == files@[i as int]);
        match to_remote_path(files[i].as_str(), script) {
            Ok(p) => {
                let ghost before = out@;
                out.push(p);
                assert(strings_view(out@) =~= strings_view(before).push(p@));
            },
            Err(e) => {
                proof {
                    lemma_remote_paths_prefix_fails(files@, script, i + 1);
                }
                return Err(e);
            },
        }
        i = i + 1;
    }
    assert(files@.subrange(0, n as int) =~= files@);
    Ok(out)
}

/// A component `.git` starts at position `i` of the path.
pub open spec fn git_component_at(path: Seq<char>, i: int) -> bool {
    &&& 0 <= i
    &&& i + 4 <= path.len()
    &&& path.subrange(i, i + 4) == ".git"@
    &&& i == 0 || path[i - 1] == '/'
    &&& i + 4 == path.len() || path[i + 4] == '/'
}

/// The path has a component `.git`.
pub open spec fn in_vcs_dir(path: Seq<char>) -> bool {
    exists|i: int| git_component_at(path, i)
}

/// Whether a local directory lies in version-control metadata (a path with a
/// component `.git`), which a push passes over.
pub fn is_vcs_path(path: &str) -> (r: bool)
    ensures
        r == in_vcs_dir(path@),
{
    proof {
        reveal_strlit(".git");
    }
    let n = path.unicode_len();
    let mut i: usize = 0;
    while n >= 4 && i <= n - 4
        invariant
            n == path@.len(),
            i <= n,
            forall|j: int| 0 <= j < i ==> !git_component_at(path@, j),
        decreases n - i,
    {
        proof {
            reveal_strlit(".git");
        }
        let starts = i == 0 || path.get_char(i - 1) == '/';
        let ends = i + 4 == n || path.get_char(i + 4) == '/';
        if starts && ends && path.get_char(i) == '.' && path.get_char(i + 1) == 'g' && path.get_char(
            i + 2,
        ) == 'i' && path.get_char(i + 3) == 't' {
            assert(path@.subrange(i as int, i + 4) =~= ".git"@);
            assert(git_component_at(path@, i as int));
            return true;
        }
        proof {
            if path@.subrange(i as int, i + 4) == ".git"@ {
                assert(path@.subrange(i as int, i + 4)[0] == path@[i as int]);
                assert(path@.subrange(i as int, i + 4)[1] == path@[i + 1]);
                assert(path@.subrange(i as int, i + 4)[2] == path@[i + 2]);
                assert(path@.subrange(i as int, i + 4)[3] == path@[i + 3]);
            }
        }
        i = i + 1;
    }
    assert forall|j: int| !git_component_at(path@, j) by {
        reveal_strlit(".git");
        if 0 <= j < i {
        }
    }
    false
}

/// The prefix of the remote paths of a feature set's scripts, as a pull
/// tests it.
pub open spec fn pull_scripts_prefix(name: Seq<char>) -> Seq<char> {
    name + "/scripts"@
}

/// A pull takes the entry: with `script`, only scripts; else with `config`,
/// only the other files; either way, where a path is given, only remote
/// paths that end with it. With neither flag it takes every entry.
pub open spec fn pull_selected(
    e: EntryView,
    name: Seq<char>,
    sub_path: Option<Seq<char>>,
    script: bool,
    config: bool,
) -> bool {
    if script || config {
        &&& if script {
            is_prefix(pull_scripts_prefix(name), e.path)
        } else {
            !is_prefix(pull_scripts_prefix(name), e.path)
        }
        &&& match sub_path {
            Some(p) => is_suffix(p, e.path),
            None => true,
        }
    } else {
        true
    }
}

/// A pull writes the entry as a script: as the flags say, or with neither
/// flag, where it lies under the scripts folder.
pub open spec fn pulled_as_script(e: EntryView, name: Seq<char>, script: bool, config: bool) -> bool {
    if script || config {
        script
    } else {
        is_prefix(pull_scripts_prefix(name), e.path)
    }
}

/// What a pull writes, in order: for each entry taken, its remote path, the
/// local path it is written to, and whether it is a script. `None` where
/// an entry taken has no local path.
pub open spec fn pull_plan_of(
    name: Seq<char>,
    files: Seq<EntryView>,
    sub_path: Option<Seq<char>>,
    script: bool,
    config: bool,
    script_dir: Seq<char>,
) -> Option<Seq<(Seq<char>, Seq<char>, bool)>>
    decreases files.len(),
{
    if files.len() == 0 {
        Some(Seq::empty())
    } else {
        let e = files.last();
        match pull_plan_of(name, files.drop_last(), sub_path, script, config, script_dir) {
            Some(r) => if pull_selected(e, name, sub_path, script, config) {
                let as_script = pulled_as_script(e, name, script, config);
                match local_path_of(e.path, as_script, script_dir) {
                    Some(l) => Some(r.push((e.path, l, as_script))),
                    None => None,
                }
            } else {
                Some(r)
            },
            None => None,
        }
    }
}

proof fn lemma_pull_prefix_fails(
    name: Seq<char>,
    files: Seq<EntryView>,
    sub_path: Option<Seq<char>>,
    script: bool,
    config: bool,
    script_dir: Seq<char>,
    k: int,
)
    requires
        0 <= k <= files.len(),
        pull_plan_of(name, files.subrange(0, k), sub_path, script, config, script_dir) is None,
    ensures
        pull_plan_of(name, files, sub_path, script, config, script_dir) is None,
    decreases files.len(),
{
    if k == files.len() {
        assert(files.subrange(0, k) =~= files);
    } else {
        assert(files.drop_last().subrange(0, k) =~= files.subrange(0, k));
        lemma_pull_prefix_fails(name, files.drop_last(), sub_path, script, config, script_dir, k);
    }
}

/// One file that a pull writes.
#[derive(Debug)]
pub struct PullItem {
    pub remote_path: String,
    pub local_path: String,
    pub script: bool,
}

impl PullItem {
    pub open spec fn view(&self) -> (Seq<char>, Seq<char>, bool) {
        (self.remote_path@, self.local_path@, self.script)
    }
}

/// The views of some pull items.
pub open spec fn pull_items_view(v: Seq<PullItem>) -> Seq<(Seq<char>, Seq<char>, bool)> {
    v.map_values(|p: PullItem| p.view())
}

impl RemoteRepository {
    /// What a pull from the feature set `name` writes, given the files of the
    /// feature set (as its walk listed them): which entries it takes, where
    /// each goes, and which are scripts.
    pub fn pull_plan(
        &self,
        name: &str,
        files: &ContentsResponse,
        sub_path: &Option<String>,
        script: bool,
        config: bool,
    ) -> (r: Result<Vec<PullItem>, Error>)
        ensures
            match pull_plan_of(name@, files@, opt_view(*sub_path), script, config, self.config.script_folder@) {
                Some(p) => r matches Ok(v) && pull_items_view(v@) == p,
                None => r matches Err(e) && e is Io,
            },
    {
        let prefix = concat(name, "/scripts");
        let dir = self.config.script_folder.as_str();
        let n = files.content.len();
        let mut out: Vec<PullItem> = Vec::new();
        let mut i: usize = 0;
        assert(files@.subrange(0, 0) =~= Seq::<EntryView>::empty());
        while i < n
            invariant
                n == files@.len(),
                n == files.content@.len(),
                i <= n,
                prefix@ == pull_scripts_prefix(name@),
                dir@ == self.config.script_folder@,
                pull_plan_of(name@, files@.subrange(0, i as int), opt_view(*sub_path), script, config, dir@)
                    == Some(pull_items_view(out@)),
            decreases n - i,
        {
            let ghost sub = files@.subrange(0, i + 1);
            assert(sub.drop_last() =~= files@.subrange(0, i as int));
            assert(sub.last() == files@[i as int]);
            let path = files.content[i].path.as_str();
            let under_scripts = starts_with(path, prefix.as_str());
            let selected = if script || config {
                let kind_ok = if script {
                    under_scripts
                } else {
                    !under_scripts
                };
                let path_ok = match sub_path {
                    Some(p) => ends_with(path, p.as_str()),
                    None => true,
                };
                kind_ok && path_ok
            } else {
                true
            };
            if selected {
                let as_script = if script || config {
                    script
                } else {
                    under_scripts
                };
                match to_local_path(path, as_script, dir) {
                    Ok(l) => {
                        let ghost before = out@;
                        let item = PullItem { remote_path: path.to_owned(), local_path: l, script: as_script };
                        out.push(item);
                        assert(pull_items_view(out@) =~= pull_items_view(before).push(item.view()));
                    },
                    Err(e) => {
                        proof {
                            lemma_pull_prefix_fails(
                                name@,
                                files@,
                                opt_view(*sub_path),
                                script,
                                config,
                                dir@,
                                i + 1,
                            );
                        }
                        return Err(e);
                    },
                }
            }
            i = i + 1;
        }
        assert(files@.subrange(0, n as int) =~= files@);
        Ok(out)
    }
}

/// A pull writes only entries that it takes: with `script`, only remote paths
/// under `<name>/scripts`; with `config` alone, only the others.
pub proof fn law_pull_writes_only_selected(
    name: Seq<char>,
    files: Seq<EntryView>,
    sub_path: Option<Seq<char>>,
    script: bool,
    config: bool,
    script_dir: Seq<char>,
    j: int,
)
    requires
        pull_plan_of(name, files, sub_path, script, config, script_dir) is Some,
        0 <= j < pull_plan_of(name, files, sub_path, script, config, script_dir)->0.len(),
    ensures
        ({
            let item = pull_plan_of(name, files, sub_path, script, config, script_dir)->0[j];
            &&& script ==> is_prefix(pull_scripts_prefix(name), item.0)
            &&& !script && config ==> !is_prefix(pull_scripts_prefix(name), item.0)
            &&& exists|i: int|
                0 <= i < files.len() && (#[trigger] files[i]).path == item.0 && pull_selected(
                    files[i],
                    name,
                    sub_path,
                    script,
                    config,
                )
        }),
    decreases files.len(),
{
    let rest = pull_plan_of(name, files.drop_last(), sub_path, script, config, script_dir)->0;
    let e = files.last();
    if pull_selected(e, name, sub_path, script, config) && j == rest.len() {
        assert(files[files.len() - 1] == e);
    } else {
        law_pull_writes_only_selected(name, files.drop_last(), sub_path, script, config, script_dir, j);
        let i = choose|i: int|
            0 <= i < files.drop_last().len() && (#[trigger] files.drop_last()[i]).path == rest[j].0
                && pull_selected(files.drop_last()[i], name, sub_path, script, config);
        assert(files[i] == files.drop_last()[i]);
    }
}

/// A pull writes every entry that it takes: under `script`, each remote path
/// under `<name>/scripts`; under `config` alone, each other one.
pub proof fn law_pull_writes_every_selected(
    name: Seq<char>,
    files: Seq<EntryView>,
    sub_path: Option<Seq<char>>,
    script: bool,
    config: bool,
    script_dir: Seq<char>,
    i: int,
)
    requires
        pull_plan_of(name, files, sub_path, script, config, script_dir) is Some,
        0 <= i < files.len(),
        pull_selected(files[i], name, sub_path, script, config),
    ensures
        exists|j: int|
            0 <= j < pull_plan_of(name, files, sub_path, script, config, script_dir)->0.len() && (
            #[trigger] pull_plan_of(name, files, sub_path, script, config, script_dir)->0[j]).0
                == files[i].path,
    decreases files.len(),
{
    let plan = pull_plan_of(name, files, sub_path, script, config, script_dir)->0;
    let rest = pull_plan_of(name, files.drop_last(), sub_path, script, config, script_dir)->0;
    if i == files.len() - 1 {
        assert(plan[rest.len() as int].0 == files[i].path);
    } else {
        assert(files.drop_last()[i] == files[i]);
        law_pull_writes_every_selected(name, files.drop_last(), sub_path, script, config, script_dir, i);
        let j = choose|j: int| 0 <= j < rest.len() && (#[trigger] rest[j]).0 == files[i].path;
        assert(plan[j] == rest[j]);
    }
}

/// The files that a rename of the feature set `name` copies, in order: each
/// remote path, and the same path with `name` taken off its front, which is
/// where it goes in the new feature set. `None` where a path does not start
/// with `name`.
pub open spec fn rename_plan_of(name: Seq<char>, files: Seq<EntryView>) -> Option<
    Seq<(Seq<char>, Seq<char>)>,
>
    decreases files.len(),
{
    if files.len() == 0 {
        Some(Seq::empty())
    } else {
        let p = files.last().path;
        match rename_plan_of(name, files.drop_last()) {
            Some(r) => if is_prefix(name, p) {
                Some(r.push((p, p.subrange(name.len() as int, p.len() as int))))
            } else {
                None
            },
            None => None,
        }
    }
}

proof fn lemma_rename_prefix_fails(name: Seq<char>, files: Seq<EntryView>, k: int)
    requires
        0 <= k <= files.len(),
        rename_plan_of(name, files.subrange(0, k)) is None,
    ensures
        rename_plan_of(name, files) is None,
    decreases files.len(),
{
    if k == files.len() {
        assert(files.subrange(0, k) =~= files);
    } else {
        assert(files.drop_last().subrange(0, k) =~= files.subrange(0, k));
        lemma_rename_prefix_fails(name, files.drop_last(), k);
    }
}

/// One file that a rename copies: from where, and to which path relative to
/// the new feature set.
#[derive(Debug)]
pub struct RenameItem {
    pub remote_path: String,
    pub filename: String,
}

impl RenameItem {
    pub open spec fn view(&self) -> (Seq<char>, Seq<char>) {
        (self.remote_path@, self.filename@)
    }
}

/// The views of some rename items.
pub open spec fn rename_items_view(v: Seq<RenameItem>) -> Seq<(Seq<char>, Seq<char>)> {
    v.map_values(|p: RenameItem| p.view())
}

/// What a rename of the feature set `name` copies, given its files (as its
/// walk listed them). A file outside the feature set gives an error.
pub fn rename_plan(name: &str, files: &ContentsResponse) -> (r: Result<Vec<RenameItem>, Error>)
    ensures
        match rename_plan_of(name@, files@) {
            Some(p) => r matches Ok(v) && rename_items_view(v@) == p,
            None => r matches Err(e) && e is Rustea,
        },
{
    let k = name.unicode_len();
    let n = files.content.len();
    let mut out: Vec<RenameItem> = Vec::new();
    let mut i: usize = 0;
    assert(files@.subrange(0, 0) =~= Seq::<EntryView>::empty());
    while i < n
        invariant
            n == files@.len(),
            n == files.content@.len(),
            k == name@.len(),
            i <= n,
            rename_plan_of(name@, files@.subrange(0, i as int)) == Some(rename_items_view(out@)),
        decreases n - i,
    {
        let ghost sub = files@.subrange(0, i + 1);
        assert(sub.drop_last() =~= files@.subrange(0, i as int));
        assert(sub.last() == files@[i as int]);
        let path = files.content[i].path.as_str();
        if starts_with(path, name) {
            let ghost before = out@;
            let item = RenameItem { remote_path: path.to_owned(), filename: crate::text::suffix_from(path, k) };
            out.push(item);
            assert(rename_items_view(out@) =~= rename_items_view(before).push(item.view()));
        } else {
            proof {
                lemma_rename_prefix_fails(name@, files@, i + 1);
            }
            return Err(Error::Rustea(concat("File outside of the feature set: ", path)));
        }
        i = i + 1;
    }
    assert(files@.subrange(0, n as int) =~= files@);
    Ok(out)
}

/// What precedes the first `c` in `s` (all of `s` when it has none).
pub open spec fn before_first(s: Seq<char>, c: char) -> Seq<char>
    decreases s.len(),
{
    if s.len() == 0 || s[0] == c {
        Seq::empty()
    } else {
        seq![s[0]] + before_first(s.drop_first(), c)
    }
}

/// The feature set that a remote file lies in: the directory at the root
/// that its path starts with. `None` for a file at the root.
pub open spec fn feature_set_of(path: Seq<char>) -> Option<Seq<char>> {
    if path.contains('/') {
        Some(before_first(path, '/'))
    } else {
        None
    }
}

/// The feature sets of a repository that holds the files at these paths.
pub open spec fn feature_sets_of(files: Set<Seq<char>>) -> Set<Seq<char>> {
    Set::new(|d: Seq<char>| exists|p: Seq<char>| files.contains(p) && feature_set_of(p) == Some(d))
}

/// The listing names exactly the feature sets of a repository that holds the
/// files at these paths, as the server's listing of the root does.
pub open spec fn lists_feature_sets(listing: Seq<EntryView>, files: Set<Seq<char>>) -> bool {
    forall|d: Seq<char>| has_feature_set(listing, d) <==> #[trigger] feature_sets_of(files).contains(d)
}

/// The paths that the creation of the feature set writes.
pub open spec fn created_files(name: Seq<char>) -> Set<Seq<char>> {
    set![name + root_placeholder(), name + scripts_placeholder()]
}

proof fn lemma_before_first(name: Seq<char>, rest: Seq<char>, c: char)
    requires
        !name.contains(c),
        rest.len() > 0,
        rest[0] == c,
    ensures
        before_first(name + rest, c) == name,
        (name + rest).contains(c),
    decreases name.len(),
{
    let s = name + rest;
    assert(s[name.len() as int] == c);
    if name.len() > 0 {
        assert(!name.drop_first().contains(c)) by {
            if name.drop_first().contains(c) {
                let i = choose|i: int| 0 <= i < name.drop_first().len() && name.drop_first()[i] == c;
                assert(name[i + 1] == c);
            }
        }
        lemma_before_first(name.drop_first(), rest, c);
        assert(s.drop_first() =~= name.drop_first() + rest);
        assert(s[0] == name[0]);
        assert(seq![name[0]] + name.drop_first() =~= name);
    } else {
        assert(s =~= rest);
    }
}

/// Once a feature set has been created, the listing of the root names it.
pub proof fn law_created_feature_set_exists(files: Set<Seq<char>>, name: Seq<char>, listing: Seq<EntryView>)
    requires
        name.len() > 0,
        !name.contains('/'),
        lists_feature_sets(listing, files.union(created_files(name))),
    ensures
        has_feature_set(listing, name),
{
    reveal_strlit("/.gitkeep");
    let p = name + root_placeholder();
    lemma_before_first(name, root_placeholder(), '/');
    assert(files.union(created_files(name)).contains(p));
    assert(feature_set_of(p) == Some(name));
    assert(feature_sets_of(files.union(created_files(name))).contains(name));
}

/// A name that no file of the repository lies under is no feature set of
/// the listing of its root.
pub proof fn law_absent_feature_set_does_not_exist(files: Set<Seq<char>>, name: Seq<char>, listing: Seq<EntryView>)
    requires
        lists_feature_sets(listing, files),
        forall|p: Seq<char>| files.contains(p) ==> feature_set_of(p) != Some(name),
    ensures
        !has_feature_set(listing, name),
{
    assert(!feature_sets_of(files).contains(name));
}

/// The deletion of a whole feature set recurses, whatever the caller asked,
/// and once the files under it are gone the listing of the root no longer
/// names it.
pub proof fn law_feature_set_deletion(
    script: bool,
    recursive: bool,
    files: Set<Seq<char>>,
    name: Seq<char>,
    listing: Seq<EntryView>,
)
    requires
        lists_feature_sets(
            listing,
            files.filter(|p: Seq<char>| feature_set_of(p) != Some(name)),
        ),
    ensures
        delete_target_of(name, None, script, recursive) == (name, true),
        !has_feature_set(listing, name),
{
    let left = files.filter(|p: Seq<char>| feature_set_of(p) != Some(name));
    assert(!feature_sets_of(left).contains(name));
}

} // verus!
