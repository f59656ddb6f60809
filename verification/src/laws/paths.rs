//! Where a configured path leads.
use crate::laws::words::{has_bare_ends, is_blank, law_trim_leaves_the_middle};
use crate::storage::{is_absolute, joined_path, repo_path, resolved};
use crate::text::{has_prefix, is_white_space, trim_end, trim_start, trimmed};
use vstd::prelude::*;

verus! {

proof fn trim_start_is_bare(s: Seq<char>)
    ensures
        trim_start(s).len() > 0 ==> !is_white_space(trim_start(s)[0]),
    decreases s.len(),
{
    if s.len() > 0 && is_white_space(s[0]) {
        trim_start_is_bare(s.drop_first());
    }
}

proof fn trim_end_is_bare(s: Seq<char>)
    ensures
        trim_end(s).len() > 0 ==> !is_white_space(trim_end(s).last()) && trim_end(s)[0] == s[0],
    decreases s.len(),
{
    if s.len() > 0 && is_white_space(s.last()) {
        trim_end_is_bare(s.drop_last());
    }
}

proof fn trimmed_is_bare(s: Seq<char>)
    ensures
        has_bare_ends(trimmed(s)),
{
    trim_start_is_bare(s);
    trim_end_is_bare(trim_start(s));
}

proof fn bare_is_trimmed(s: Seq<char>)
    requires
        has_bare_ends(s),
    ensures
        trimmed(s) == s,
{
}

/// A configured path that is not blank leads to an absolute path, where the home directory
/// has one.
pub proof fn law_path_is_absolute(configured: Seq<char>, home: Option<Seq<char>>)
    requires
        home matches Some(h) ==> is_absolute(h),
    ensures
        resolved(repo_path(configured, home)) is None <==> trimmed(configured).len() == 0,
        resolved(repo_path(configured, home)) matches Some(path) ==> is_absolute(path),
{
    reveal_strlit("/");
}

/// Normalising a path a second time changes nothing, whatever the home directory is then.
#[verifier::rlimit(30)]
pub proof fn law_path_is_settled(
    configured: Seq<char>,
    home: Option<Seq<char>>,
    then: Option<Seq<char>>,
)
    requires
        home matches Some(h) ==> is_absolute(h) && has_bare_ends(h),
    ensures
        resolved(repo_path(configured, home)) matches Some(path) ==> resolved(
            repo_path(path, then),
        ) == Some(path),
{
    reveal_strlit("/");
    reveal_strlit("~");
    reveal_strlit("~/");
    reveal_strlit("./");
    if let Some(path) = resolved(repo_path(configured, home)) {
        let given = trimmed(configured);
        law_path_is_absolute(configured, home);
        trimmed_is_bare(configured);
        assert(has_bare_ends(path)) by {
            assert(path[0] == '/');
            assert(path.last() == given.last() || path.last() == '/' || (home is Some
                && path.last() == home->0.last()));
        }
        bare_is_trimmed(path);
        assert(path.take(2)[0] == path[0] || path.len() < 2);
        assert(!has_prefix(path, "~/"@)) by {
            assert("~/"@[0] == '~');
        }
        assert(!has_prefix(path, "./"@)) by {
            assert("./"@[0] == '.');
        }
        assert("~"@[0] == '~');
        assert(joined_path("/"@, path) == path);
    }
}

/// What white space stands around a configured path does not matter, and white space alone
/// means the directory that the program runs in.
pub proof fn law_white_space_around_a_path_does_not_matter(
    a: Seq<char>,
    path: Seq<char>,
    b: Seq<char>,
    home: Option<Seq<char>>,
)
    requires
        is_blank(a),
        has_bare_ends(path),
        is_blank(b),
    ensures
        repo_path(a + path + b, home) == repo_path(path, home),
        path.len() == 0 ==> resolved(repo_path(a + path + b, home)) is None,
{
    law_trim_leaves_the_middle(a, path, b);
    bare_is_trimmed(path);
}

/// `~` is the home directory, and what follows `~/` comes behind the home directory and one
/// `/`, whatever it is; but an absolute path behind `~/` stands for itself.
pub proof fn law_home_is_expanded(home: Seq<char>, rest: Seq<char>)
    requires
        has_bare_ends("~/"@ + rest),
    ensures
        resolved(repo_path("~"@, Some(home))) == Some(home),
        rest.len() > 0 && rest[0] == '/' ==> resolved(repo_path("~/"@ + rest, Some(home))) == Some(
            rest,
        ),
        rest.len() == 0 || rest[0] != '/' ==> resolved(repo_path("~/"@ + rest, Some(home)))
            == Some(
            if home.len() > 0 && home.last() != '/' {
                home + "/"@ + rest
            } else {
                home + rest
            },
        ),
{
    reveal_strlit("~");
    reveal_strlit("~/");
    reveal_strlit("/");
    let path = "~/"@ + rest;
    bare_is_trimmed("~"@);
    bare_is_trimmed(path);
    assert(path.take(2) =~= "~/"@);
    assert(path.skip(2) =~= rest);
    assert("~"@.len() == 1 && path.len() >= 2);
    assert(home.push('/') =~= home + "/"@);
}

/// An absolute path is left as it is; every other one is taken from the root, without the `./`
/// that it may start with. Without a home directory `~` is a name like any other.
#[verifier::rlimit(30)]
pub proof fn law_other_paths_are_taken_from_the_root(
    path: Seq<char>,
    rest: Seq<char>,
    home: Option<Seq<char>>,
)
    requires
        path.len() > 0,
        has_bare_ends(path),
        has_bare_ends("./"@ + rest),
    ensures
        path[0] == '/' ==> resolved(repo_path(path, home)) == Some(path),
        path[0] != '/' && path[0] != '~' && path[0] != '.' ==> resolved(repo_path(path, home))
            == Some("/"@ + path),
        path[0] == '~' && home is None ==> resolved(repo_path(path, home)) == Some("/"@ + path),
        path[0] == '~' && path.len() > 1 && path[1] != '/' ==> resolved(repo_path(path, home))
            == Some("/"@ + path),
        path[0] == '.' && (path.len() == 1 || path[1] != '/') ==> resolved(repo_path(path, home))
            == Some("/"@ + path),
        resolved(repo_path("./"@ + rest, home)) == Some(
            if rest.len() > 0 && rest[0] == '/' {
                rest
            } else {
                "/"@ + rest
            },
        ),
{
    reveal_strlit("~");
    reveal_strlit("~/");
    reveal_strlit("./");
    reveal_strlit("/");
    bare_is_trimmed(path);
    let dotted = "./"@ + rest;
    bare_is_trimmed(dotted);
    assert(dotted.take(2) =~= "./"@);
    assert(dotted.skip(2) =~= rest);
    assert(dotted[0] == '.');
    assert(dotted.take(2)[0] == '.');
    assert("~/"@[0] == '~' && "./"@[0] == '.' && "~/"@[1] == '/' && "./"@[1] == '/');
    if path.len() >= 2 {
        assert(path.take(2)[0] == path[0] && path.take(2)[1] == path[1]);
    }
    assert("~"@.len() == 1 && "~"@[0] == '~');
}

} // verus!
