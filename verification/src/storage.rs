//! Where the data is kept and how it is sent to its remote.
use crate::text::{chars_of, has_prefix, is_same, starts_with, string_of, trim, trimmed};
use vstd::prelude::*;

verus! {

/// The name of the data file, without its extension.
pub const LOG_COLD_STORAGE_NAME: &'static str = "deep_logue";

/// The name of the data file.
pub fn data_file_name() -> (res: String)
    ensures
        res@ == LOG_COLD_STORAGE_NAME@ + ".json"@,
        res@ == "deep_logue.json"@,
{
    let mut res = LOG_COLD_STORAGE_NAME.to_owned();
    res.append(".json");
    proof {
        reveal_strlit("deep_logue");
        reveal_strlit(".json");
        reveal_strlit("deep_logue.json");
        assert(res@ =~= "deep_logue.json"@);
    }
    res
}

/// A place in the file system.
#[derive(Debug)]
pub enum RepoPath {
    /// The directory that the program runs in.
    CurrentDir,
    /// The home directory.
    Home(String),
    /// `rest` joined to the home directory.
    UnderHome { home: String, rest: String },
    /// The path joined to the root directory. An absolute path stands for itself there, as
    /// joining replaces what it is joined to.
    UnderRoot(String),
}

pub enum RepoPathView {
    CurrentDir,
    Home(Seq<char>),
    UnderHome { home: Seq<char>, rest: Seq<char> },
    UnderRoot(Seq<char>),
}

impl View for RepoPath {
    type V = RepoPathView;

    open spec fn view(&self) -> RepoPathView {
        match self {
            RepoPath::CurrentDir => RepoPathView::CurrentDir,
            RepoPath::Home(home) => RepoPathView::Home(home@),
            RepoPath::UnderHome { home, rest } => RepoPathView::UnderHome {
                home: home@,
                rest: rest@,
            },
            RepoPath::UnderRoot(path) => RepoPathView::UnderRoot(path@),
        }
    }
}

/// The place that a configured path means: `~` stands for the home directory where that is
/// known, a relative path and one that starts with `./` are taken from the root.
pub open spec fn repo_path(configured: Seq<char>, home: Option<Seq<char>>) -> RepoPathView {
    let path = trimmed(configured);
    if path.len() == 0 {
        RepoPathView::CurrentDir
    } else if path == "~"@ && home is Some {
        RepoPathView::Home(home->0)
    } else if has_prefix(path, "~/"@) && home is Some {
        RepoPathView::UnderHome { home: home->0, rest: path.skip(2) }
    } else if has_prefix(path, "./"@) {
        RepoPathView::UnderRoot(path.skip(2))
    } else {
        RepoPathView::UnderRoot(path)
    }
}

fn without_two(path: &str) -> (res: String)
    requires
        path@.len() >= 2,
    ensures
        res@ == path@.skip(2),
{
    let chars = chars_of(path);
    let n: usize = chars.len();
    proof { assert(path@.subrange(2, n as int) =~= path@.skip(2)); }
    string_of(&chars, 2, n)
}

/// Tells the place that a configured path means.
pub fn normalize_repo_path(configured: &str, home: Option<String>) -> (res: RepoPath)
    ensures
        res@ == repo_path(
            configured@,
            match home {
                Some(h) => Some(h@),
                None => None,
            },
        ),
{
    proof {
        reveal_strlit("~/");
        reveal_strlit("./");
    }
    let path = trim(configured);
    if path.as_str().is_empty() {
        return RepoPath::CurrentDir;
    }
    match home {
        Some(home) => {
            if is_same(path.as_str(), "~") {
                return RepoPath::Home(home);
            }
            if starts_with(path.as_str(), "~/") {
                return RepoPath::UnderHome { home, rest: without_two(path.as_str()) };
            }
        },
        None => {},
    }
    if starts_with(path.as_str(), "./") {
        return RepoPath::UnderRoot(without_two(path.as_str()));
    }
    RepoPath::UnderRoot(path)
}

/// A path joined to a base, where `/` parts the names of a path: an absolute path stands for
/// itself, and another comes behind the base and a `/`.
pub open spec fn joined_path(base: Seq<char>, path: Seq<char>) -> Seq<char> {
    if is_absolute(path) {
        path
    } else if base.len() == 0 || base.last() == '/' {
        base + path
    } else {
        base.push('/') + path
    }
}

/// A path from the root directory.
pub open spec fn is_absolute(path: Seq<char>) -> bool {
    path.len() > 0 && path[0] == '/'
}

/// Joins a path to a base.
pub fn join_path(base: &str, path: &str) -> (res: String)
    ensures
        res@ == joined_path(base@, path@),
{
    if !path.is_empty() && path.get_char(0) == '/' {
        return path.to_owned();
    }
    let mut res = base.to_owned();
    let chars = chars_of(base);
    if chars.len() != 0 && chars[chars.len() - 1] != '/' {
        res.push('/');
    }
    res.append(path);
    res
}

/// The path of a place; none for the directory that the program runs in, which only the file
/// system knows.
pub open spec fn resolved(place: RepoPathView) -> Option<Seq<char>> {
    match place {
        RepoPathView::CurrentDir => None,
        RepoPathView::Home(home) => Some(home),
        RepoPathView::UnderHome { home, rest } => Some(joined_path(home, rest)),
        RepoPathView::UnderRoot(path) => Some(joined_path("/"@, path)),
    }
}

impl RepoPath {
    /// Tells the path of the place.
    pub fn resolve(self) -> (res: Option<String>)
        ensures
            res is Some <==> resolved(self@) is Some,
            res matches Some(path) ==> resolved(self@) == Some(path@),
    {
        match self {
            RepoPath::CurrentDir => None,
            RepoPath::Home(home) => Some(home),
            RepoPath::UnderHome { home, rest } => Some(join_path(home.as_str(), rest.as_str())),
            RepoPath::UnderRoot(path) => Some(join_path("/", path.as_str())),
        }
    }
}

/// The path under which the data file is committed: the one within the repository, or else
/// its name, or else the whole path.
pub fn committed_path(
    relative: Option<String>,
    name: Option<String>,
    whole: String,
) -> (res: String)
    ensures
        res@ == (match (relative, name) {
            (Some(r), _) => r@,
            (None, Some(n)) => n@,
            (None, None) => whole@,
        }),
{
    match relative {
        Some(path) => path,
        None => match name {
            Some(path) => path,
            None => whole,
        },
    }
}

/// The refspec that pushes a branch to the branch of the same name.
pub fn push_refspec(branch: &str) -> (res: String)
    ensures
        res@ == "refs/heads/"@ + branch@ + ":refs/heads/"@ + branch@,
{
    let mut res = "refs/heads/".to_owned();
    res.append(branch);
    res.append(":refs/heads/");
    res.append(branch);
    res
}

/// How the remote is to be answered when it asks for credentials.
#[derive(Debug)]
pub enum Credentials {
    /// The key that the agent holds for a user.
    SshAgent(String),
    /// No password is ever sent.
    NoPlaintext,
    /// Nothing that the remote accepts can be offered.
    Unsupported,
}

/// Chooses the answer: never a password, otherwise the agent's key for the user that the
/// remote names, or else for `author`.
pub fn choose_credentials(
    asks_password: bool,
    asks_ssh_key: bool,
    username: Option<String>,
    author: &str,
) -> (res: Credentials)
    ensures
        res is NoPlaintext <==> asks_password,
        res is Unsupported <==> !asks_password && !asks_ssh_key,
        res is SshAgent <==> !asks_password && asks_ssh_key,
        res matches Credentials::SshAgent(user) ==> user@ == match username {
            Some(name) => name@,
            None => author@,
        },
{
    if asks_password {
        Credentials::NoPlaintext
    } else if asks_ssh_key {
        match username {
            Some(name) => Credentials::SshAgent(name),
            None => Credentials::SshAgent(author.to_owned()),
        }
    } else {
        Credentials::Unsupported
    }
}

} // verus!
