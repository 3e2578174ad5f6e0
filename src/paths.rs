//! Conversion between local paths and paths in the remote repository.
//!
//! A script is kept remotely under `/scripts/` of its feature set by its file
//! name alone; a configuration file keeps its whole local path below the
//! feature set's directory.
use crate::error::{Error, IoKind};
use crate::text::{after_first, after_last, concat, find_first, find_last, lemma_after_first,
    lemma_after_last, suffix_from};
use vstd::prelude::*;

verus! {

/// The final component of a local path, as `std::path::Path::file_name` gives it.
pub uninterp spec fn file_name_of(path: Seq<char>) -> Option<Seq<char>>;

/// The last `/`-separated segment of the path is a name: not empty, `.` or `..`.
pub open spec fn has_plain_last_segment(path: Seq<char>) -> bool {
    let n = after_last(path, '/');
    n.len() > 0 && n != "."@ && n != ".."@
}

/// Relies on `std::path::Path::file_name`: the final component of the path, if
/// it has one; the root `/` has none (as its documentation shows). Where the
/// text after the last `/` is a name, that name is the final component.
#[verifier::external_body]
fn path_file_name(path: &str) -> (r: Option<String>)
    ensures
        match r {
            Some(n) => file_name_of(path@) == Some(n@),
            None => file_name_of(path@) is None,
        },
        path@ == seq!['/'] ==> r is None,
        has_plain_last_segment(path@) ==> r is Some && r->0@ == after_last(path@, '/'),
{
    match std::path::Path::new(path).file_name() {
        Some(n) => Some(n.to_string_lossy().into_owned()),
        None => None,
    }
}

/// The folder under a feature set that holds its scripts, as a prefix.
pub open spec fn scripts_prefix() -> Seq<char> {
    seq!['/', 's', 'c', 'r', 'i', 'p', 't', 's', '/']
}

/// The remote path of a local file, relative to its feature set; `None` when a
/// script path has no file name.
pub open spec fn remote_path_of(path: Seq<char>, script: bool) -> Option<Seq<char>> {
    if script {
        match file_name_of(path) {
            Some(name) => Some(scripts_prefix() + name),
            None => None,
        }
    } else {
        Some(path)
    }
}

/// The local path of a remote file; `None` when the remote path holds no `/`.
/// A script lands in `script_dir` under its file name; a configuration file at
/// what follows the feature set's name, taken from the root.
pub open spec fn local_path_of(remote: Seq<char>, script: bool, script_dir: Seq<char>) -> Option<
    Seq<char>,
> {
    if !remote.contains('/') {
        None
    } else if script {
        Some(script_dir + seq!['/'] + after_last(remote, '/'))
    } else {
        Some(seq!['/'] + after_first(remote, '/'))
    }
}

/// Converts a local path into the path of the file in a feature set.
pub fn to_remote_path(path: &str, script: bool) -> (r: Result<String, Error>)
    ensures
        match remote_path_of(path@, script) {
            Some(p) => r matches Ok(s) && s@ == p,
            None => r matches Err(Error::Io(e)) && e.kind == IoKind::Other,
        },
        script && path@ == seq!['/'] ==> r is Err,
        script && has_plain_last_segment(path@) ==> (r matches Ok(s) && s@ == scripts_prefix()
            + after_last(path@, '/')),
{
    if script {
        match path_file_name(path) {
            Some(name) => {
                proof {
                    reveal_strlit("/scripts/");
                }
                Ok(concat("/scripts/", name.as_str()))
            },
            None => Err(Error::io(IoKind::Other, concat(path, " not a valid file path"))),
        }
    } else {
        Ok(path.to_owned())
    }
}

/// Converts the path of a remote file into the local path it is kept at.
pub fn to_local_path(remote_path: &str, script: bool, script_dir: &str) -> (r: Result<String, Error>)
    ensures
        match local_path_of(remote_path@, script, script_dir@) {
            Some(p) => r matches Ok(s) && s@ == p,
            None => r matches Err(Error::Io(e)) && e.kind == IoKind::InvalidInput,
        },
{
    let n = remote_path.unicode_len();
    let split = if script {
        find_last(remote_path, '/')
    } else {
        find_first(remote_path, '/')
    };
    match split {
        Some(i) => {
            let rest = suffix_from(remote_path, i + 1);
            proof {
                if script {
                    lemma_after_last(remote_path@, '/', i as int);
                } else {
                    lemma_after_first(remote_path@, '/', i as int);
                }
                reveal_strlit("/");
            }
            if script {
                let dir = concat(script_dir, "/");
                Ok(concat(dir.as_str(), rest.as_str()))
            } else {
                Ok(concat("/", rest.as_str()))
            }
        },
        None => {
            let msg = concat("Remote path ", remote_path);
            Err(Error::io(IoKind::InvalidInput, concat(msg.as_str(), " can not converted to local one.")))
        },
    }
}

/// A script's remote path is `/scripts/` followed by its file name.
pub proof fn law_script_remote_path(path: Seq<char>, name: Seq<char>)
    requires
        file_name_of(path) == Some(name),
        name.len() > 0,
    ensures
        remote_path_of(path, true) == Some(scripts_prefix() + name),
{
}

/// Two local scripts with the same file name get the same remote path, whatever
/// directories their local paths name.
pub proof fn law_script_remote_path_ignores_directories(p: Seq<char>, q: Seq<char>)
    requires
        file_name_of(p) == file_name_of(q),
    ensures
        remote_path_of(p, true) == remote_path_of(q, true),
{
}

/// The remote path of a configuration file is its local path unchanged.
pub proof fn law_config_remote_path_is_identity(path: Seq<char>)
    ensures
        remote_path_of(path, false) == Some(path),
{
}

proof fn lemma_after_last_has_no_separator(s: Seq<char>, c: char)
    ensures
        !after_last(s, c).contains(c),
    decreases s.len(),
{
    if s.len() > 0 && s.last() != c {
        lemma_after_last_has_no_separator(s.drop_last(), c);
        let t = after_last(s.drop_last(), c);
        assert forall|i: int| 0 <= i < t.push(s.last()).len() implies t.push(s.last())[i] != c by {
            if i < t.len() {
                assert(t.push(s.last())[i] == t[i]);
            }
        }
    }
}

proof fn lemma_after_last_of_joined(x: Seq<char>, n: Seq<char>, c: char)
    requires
        !n.contains(c),
    ensures
        after_last(x + seq![c] + n, c) == n,
    decreases n.len(),
{
    let s = x + seq![c] + n;
    if n.len() == 0 {
        assert(s.last() == c);
    } else {
        assert(n[n.len() - 1] != c);
        assert(!n.drop_last().contains(c)) by {
            if n.drop_last().contains(c) {
                let i = choose|i: int| 0 <= i < n.drop_last().len() && n.drop_last()[i] == c;
                assert(n[i] == c);
            }
        }
        lemma_after_last_of_joined(x, n.drop_last(), c);
        assert(s.drop_last() =~= x + seq![c] + n.drop_last());
        assert(s.last() == n.last());
        assert(n.drop_last().push(n.last()) =~= n);
    }
}

/// A script pulled to the script folder keeps the last segment of its remote
/// path, and only that: pushing it again (see `to_remote_path`) puts it at
/// `/scripts/` followed by that segment, whatever folders the remote path named.
pub proof fn law_script_path_round_trip(remote: Seq<char>, script_dir: Seq<char>)
    requires
        remote.contains('/'),
    ensures
        local_path_of(remote, true, script_dir) matches Some(local) && after_last(local, '/')
            == after_last(remote, '/') && has_plain_last_segment(local) == has_plain_last_segment(remote),
{
    lemma_after_last_has_no_separator(remote, '/');
    lemma_after_last_of_joined(script_dir, after_last(remote, '/'), '/');
}

/// Taking a remote configuration path to its local path and back gives what
/// followed its first segment, from the root: the feature set's name is lost.
pub proof fn law_config_path_round_trip(remote: Seq<char>, script_dir: Seq<char>)
    requires
        remote.contains('/'),
    ensures
        local_path_of(remote, false, script_dir) matches Some(local) && remote_path_of(local, false)
            == Some(seq!['/'] + after_first(remote, '/')),
{
}

} // verus!
