//! Where the data is kept and how it is sent.
use pro_logue::storage::{
    choose_credentials, committed_path, data_file_name, join_path, normalize_repo_path, push_refspec, Credentials,
    RepoPath, LOG_COLD_STORAGE_NAME,
};
use pro_logue::sync::{
    next_step, save_next, start_save, start_sync, SaveNext, SaveStep, SyncNext, SyncStep,
};

fn place(path: &str, home: Option<&str>) -> String {
    match normalize_repo_path(path, home.map(|h| h.to_string())) {
        RepoPath::CurrentDir => "current".to_string(),
        RepoPath::Home(home) => home,
        RepoPath::UnderHome { home, rest } => format!("{} + {}", home, rest),
        RepoPath::UnderRoot(path) => format!("/ + {}", path),
    }
}

#[test]
fn data_file_has_its_name() {
    assert_eq!(data_file_name(), "deep_logue.json");
    assert_eq!(LOG_COLD_STORAGE_NAME, "deep_logue");
}

#[test]
fn home_is_expanded() {
    assert_eq!(place("~", Some("/home/me")), "/home/me");
    assert_eq!(place("~/Documents/log/", Some("/home/me")), "/home/me + Documents/log/");
    assert_eq!(place("  ~/x ", Some("/home/me")), "/home/me + x");
    assert_eq!(place("~/", Some("/home/me")), "/home/me + ");
}

#[test]
fn without_a_home_the_tilde_stays() {
    assert_eq!(place("~", None), "/ + ~");
    assert_eq!(place("~/x", None), "/ + ~/x");
    assert_eq!(place("~you/x", Some("/home/me")), "/ + ~you/x");
}

#[test]
fn paths_are_taken_from_the_root() {
    assert_eq!(place("./Users/me", None), "/ + Users/me");
    assert_eq!(place("Users/me", None), "/ + Users/me");
    assert_eq!(place("/Users/me", None), "/ + /Users/me");
    assert_eq!(std::path::Path::new("/").join("/Users/me").to_str(), Some("/Users/me"));
}

#[test]
fn a_blank_path_is_the_current_directory() {
    assert_eq!(place("", Some("/home/me")), "current");
    assert_eq!(place("  \n", None), "current");
}

#[test]
fn a_branch_is_pushed_to_its_namesake() {
    assert_eq!(push_refspec("main"), "refs/heads/main:refs/heads/main");
}

#[test]
fn credentials_are_chosen() {
    let choose = |password, ssh, user: Option<&str>| {
        choose_credentials(password, ssh, user.map(|u| u.to_string()), "author")
    };
    assert!(matches!(choose(true, true, None), Credentials::NoPlaintext));
    assert!(matches!(choose(true, false, Some("git")), Credentials::NoPlaintext));
    assert!(matches!(choose(false, true, Some("git")), Credentials::SshAgent(u) if u == "git"));
    assert!(matches!(choose(false, true, None), Credentials::SshAgent(u) if u == "author"));
    assert!(matches!(choose(false, false, Some("git")), Credentials::Unsupported));
}

/// The steps taken where those in `failing` fail, and how it ends.
fn course_with(failing: &[SyncStep], push: bool) -> (Vec<SyncStep>, SyncNext) {
    let mut steps = vec![];
    let mut next = start_sync();
    while let SyncNext::Do(step) = next {
        steps.push(step);
        next = next_step(step, !failing.contains(&step), push);
    }
    (steps, next)
}

fn course(failing: &[SyncStep]) -> (Vec<SyncStep>, SyncNext) {
    course_with(failing, true)
}

#[test]
fn all_goes_well() {
    let (steps, end) = course(&[]);
    assert_eq!(end, SyncNext::Finished);
    assert_eq!(
        steps,
        [
            SyncStep::OpenRepository,
            SyncStep::OpenIndex,
            SyncStep::AddFile,
            SyncStep::WriteIndex,
            SyncStep::WriteTree,
            SyncStep::FindTree,
            SyncStep::ReadHead,
            SyncStep::ReadHeadTarget,
            SyncStep::FindHeadCommit,
            SyncStep::Sign { has_parent: true },
            SyncStep::Commit { has_parent: true },
            SyncStep::FindRemote,
            SyncStep::Connect,
            SyncStep::Push,
        ]
    );
}

#[test]
fn a_first_commit_has_no_parent() {
    let (steps, end) =
        course(&[SyncStep::OpenRepository, SyncStep::ReadHead, SyncStep::FindRemote]);
    assert_eq!(end, SyncNext::Finished);
    assert_eq!(steps[1], SyncStep::InitRepository);
    assert!(steps.contains(&SyncStep::Commit { has_parent: false }));
    assert!(!steps.contains(&SyncStep::FindHeadCommit));
    assert!(steps.contains(&SyncStep::MakeRemote));
}

#[test]
fn every_other_failure_ends_the_course() {
    for step in course(&[]).0 {
        let fallback =
            [SyncStep::OpenRepository, SyncStep::ReadHead, SyncStep::FindRemote].contains(&step);
        let (_, end) = course(&[step]);
        if fallback {
            assert_eq!(end, SyncNext::Finished);
        } else {
            assert_eq!(end, SyncNext::Failed(step));
        }
    }
    let both = [SyncStep::OpenRepository, SyncStep::InitRepository];
    assert_eq!(course(&both).1, SyncNext::Failed(SyncStep::InitRepository));
    let both = [SyncStep::FindRemote, SyncStep::MakeRemote];
    assert_eq!(course(&both).1, SyncNext::Failed(SyncStep::MakeRemote));
}

#[test]
fn without_pushing_the_commit_is_the_last_step() {
    let (steps, end) = course_with(&[], false);
    assert_eq!(end, SyncNext::Finished);
    assert_eq!(steps[0], SyncStep::OpenRepository);
    assert_eq!(steps.last(), Some(&SyncStep::Commit { has_parent: true }));
    let (steps, end) = course_with(&[SyncStep::OpenRepository, SyncStep::ReadHead], false);
    assert_eq!(end, SyncNext::Finished);
    assert_eq!(steps.last(), Some(&SyncStep::Commit { has_parent: false }));
    let commit = SyncStep::Commit { has_parent: true };
    assert_eq!(course_with(&[commit], false).1, SyncNext::Failed(commit));
}

#[test]
fn only_writing_can_stop_a_saving() {
    assert_eq!(start_save(), SaveNext::Do(SaveStep::Persist));
    assert_eq!(save_next(SaveStep::Persist, true), SaveNext::Do(SaveStep::Commit));
    assert_eq!(save_next(SaveStep::Persist, false), SaveNext::Stop);
    assert_eq!(save_next(SaveStep::Commit, true), SaveNext::Settled);
    assert_eq!(save_next(SaveStep::Commit, false), SaveNext::Settled);
}

fn resolved(path: &str, home: Option<&str>) -> Option<String> {
    normalize_repo_path(path, home.map(|h| h.to_string())).resolve()
}

#[test]
fn paths_are_joined_as_the_file_system_does() {
    for base in ["", "/", "/home/me", "/home/me/", "x"] {
        for path in ["", "x", "x/y/", "/x", " x", "../x"] {
            let expected = std::path::PathBuf::from(base).join(path);
            assert_eq!(Some(join_path(base, path).as_str()), expected.to_str());
        }
    }
}

#[test]
fn places_have_paths() {
    assert_eq!(resolved("~", Some("/home/me")).unwrap(), "/home/me");
    assert_eq!(resolved("~/log/", Some("/home/me")).unwrap(), "/home/me/log/");
    assert_eq!(resolved("./Users/me", None).unwrap(), "/Users/me");
    assert_eq!(resolved("Users/me", None).unwrap(), "/Users/me");
    assert_eq!(resolved("/Users/me", None).unwrap(), "/Users/me");
    assert_eq!(resolved(" ", None), None);
}

#[test]
fn a_path_is_absolute_and_settled() {
    for path in ["~", "~/", "~/ x", "./x", "./", ".//x", ".", "~me", "x y", "/", "/a/b/"] {
        for home in [None, Some("/home/me"), Some("/")] {
            let once = resolved(path, home).unwrap();
            assert!(once.starts_with('/'), "{}", once);
            assert_eq!(resolved(&once, home).unwrap(), once);
            assert_eq!(resolved(&once, None).unwrap(), once);
        }
    }
}

#[test]
fn the_path_within_the_repository_is_committed() {
    let some = |t: &str| Some(t.to_string());
    assert_eq!(committed_path(some("r"), some("n"), "w".to_string()), "r");
    assert_eq!(committed_path(some("r"), None, "w".to_string()), "r");
    assert_eq!(committed_path(None, some("n"), "w".to_string()), "n");
    assert_eq!(committed_path(None, None, "w".to_string()), "w");
}
