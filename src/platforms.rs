use vstd::prelude::*;

use crate::error::AppError;
use crate::text::{push_str, str_eq, string_of};

verus! {

/// The hosting platforms a repository can come from.
#[derive(PartialEq, Eq, Structural, Debug, Clone, Copy)]
pub enum Platform {
    Bitbucket,
    GitHub,
    GitLab,
    Gitea,
}

/// The name of a platform in stored records.
pub open spec fn platform_name(p: Platform) -> Seq<char> {
    match p {
        Platform::Bitbucket => "bitbucket"@,
        Platform::GitHub => "github"@,
        Platform::GitLab => "gitlab"@,
        Platform::Gitea => "gitea"@,
    }
}

impl Platform {
    /// The platform of a stored name; any other name is a validation error.
    pub fn from_str(s: &str) -> (r: Result<Platform, AppError>)
        ensures
            match r {
                Ok(p) => platform_name(p) == s@,
                Err(e) => (forall|p: Platform| platform_name(p) != s@) && e is Validation,
            },
    {
        if str_eq(s, "bitbucket") {
            Ok(Platform::Bitbucket)
        } else if str_eq(s, "github") {
            Ok(Platform::GitHub)
        } else if str_eq(s, "gitlab") {
            Ok(Platform::GitLab)
        } else if str_eq(s, "gitea") {
            Ok(Platform::Gitea)
        } else {
            assert forall|p: Platform| platform_name(p) != s@ by {
                match p {
                    Platform::Bitbucket => {},
                    Platform::GitHub => {},
                    Platform::GitLab => {},
                    Platform::Gitea => {},
                }
            }
            Err(AppError::Validation("Invalid platform".to_owned()))
        }
    }

    /// The name of the platform in stored records.
    pub fn name(&self) -> (r: &'static str)
        ensures
            r@ == platform_name(*self),
    {
        match self {
            Platform::Bitbucket => "bitbucket",
            Platform::GitHub => "github",
            Platform::GitLab => "gitlab",
            Platform::Gitea => "gitea",
        }
    }
}

/// The user interface theme.
#[derive(PartialEq, Eq, Structural, Debug, Clone, Copy)]
pub enum Theme {
    Dark,
    Light,
}

pub open spec fn theme_name(t: Theme) -> Seq<char> {
    match t {
        Theme::Dark => "dark"@,
        Theme::Light => "light"@,
    }
}

impl Theme {
    /// The theme of a stored name; any other name fails with a message that
    /// names it.
    pub fn from_str(s: &str) -> (r: Result<Theme, AppError>)
        ensures
            match r {
                Ok(t) => theme_name(t) == s@,
                Err(e) => theme_name(Theme::Dark) != s@ && theme_name(Theme::Light) != s@
                    && (e matches AppError::Custom(m) && m@ == "No theme found: "@ + s@),
            },
    {
        if str_eq(s, "dark") {
            Ok(Theme::Dark)
        } else if str_eq(s, "light") {
            Ok(Theme::Light)
        } else {
            let mut v: Vec<char> = Vec::new();
            push_str(&mut v, "No theme found: ");
            push_str(&mut v, s);
            Err(AppError::Custom(string_of(v.as_slice())))
        }
    }

    /// The name of the theme in stored settings.
    pub fn name(&self) -> (r: &'static str)
        ensures
            r@ == theme_name(*self),
    {
        match self {
            Theme::Dark => "dark",
            Theme::Light => "light",
        }
    }
}

/// Authentication settings.
#[derive(Debug, Clone)]
pub struct AuthSettings {
    pub github_token: Option<String>,
}

/// The application settings.
#[derive(Debug, Clone)]
pub struct Settings {
    pub theme: Theme,
    pub auto_sync: bool,
    pub auth: AuthSettings,
}

impl Settings {
    /// The settings of a fresh installation: dark theme, no automatic sync,
    /// no token.
    pub fn defaults() -> (r: Settings)
        ensures
            r.theme == Theme::Dark,
            !r.auto_sync,
            r.auth.github_token is None,
    {
        Settings { theme: Theme::Dark, auto_sync: false, auth: AuthSettings { github_token: None } }
    }
}

/// The repository events that can be watched.
#[derive(PartialEq, Eq, Structural, Debug, Clone, Copy)]
pub enum RepoEvent {
    Branch,
    Contributor,
    Commit,
    Discussion,
    Fork,
    Issue,
    PullRequest,
    Release,
    Star,
    Tag,
}

pub open spec fn event_name(e: RepoEvent) -> Seq<char> {
    match e {
        RepoEvent::Branch => "branch"@,
        RepoEvent::Contributor => "contributor"@,
        RepoEvent::Commit => "commit"@,
        RepoEvent::Discussion => "discussion"@,
        RepoEvent::Fork => "fork"@,
        RepoEvent::Issue => "issue"@,
        RepoEvent::PullRequest => "pull_request"@,
        RepoEvent::Release => "release"@,
        RepoEvent::Star => "star"@,
        RepoEvent::Tag => "tag"@,
    }
}

impl RepoEvent {
    /// The name of the event.
    pub fn name(&self) -> (r: &'static str)
        ensures
            r@ == event_name(*self),
    {
        match self {
            RepoEvent::Branch => "branch",
            RepoEvent::Contributor => "contributor",
            RepoEvent::Commit => "commit",
            RepoEvent::Discussion => "discussion",
            RepoEvent::Fork => "fork",
            RepoEvent::Issue => "issue",
            RepoEvent::PullRequest => "pull_request",
            RepoEvent::Release => "release",
            RepoEvent::Star => "star",
            RepoEvent::Tag => "tag",
        }
    }

    /// Every watchable event.
    pub fn list() -> (r: Vec<RepoEvent>)
        ensures
            r@.len() == 10,
            forall|e: RepoEvent| r@.contains(e),
    {
        let v = vec![
            RepoEvent::Branch,
            RepoEvent::Contributor,
            RepoEvent::Commit,
            RepoEvent::Discussion,
            RepoEvent::Fork,
            RepoEvent::Issue,
            RepoEvent::PullRequest,
            RepoEvent::Release,
            RepoEvent::Star,
            RepoEvent::Tag,
        ];
        assert forall|e: RepoEvent| v@.contains(e) by {
            match e {
                RepoEvent::Branch => assert(v@[0] == e),
                RepoEvent::Contributor => assert(v@[1] == e),
                RepoEvent::Commit => assert(v@[2] == e),
                RepoEvent::Discussion => assert(v@[3] == e),
                RepoEvent::Fork => assert(v@[4] == e),
                RepoEvent::Issue => assert(v@[5] == e),
                RepoEvent::PullRequest => assert(v@[6] == e),
                RepoEvent::Release => assert(v@[7] == e),
                RepoEvent::Star => assert(v@[8] == e),
                RepoEvent::Tag => assert(v@[9] == e),
            }
        }
        v
    }

    /// Whether `event` names a watchable event.
    pub fn is_valid(event: &str) -> (r: bool)
        ensures
            r == exists|e: RepoEvent| event_name(e) == event@,
    {
        let all = RepoEvent::list();
        let mut k: usize = 0;
        while k < all.len()
            invariant
                k <= all@.len(),
                forall|e: RepoEvent| all@.contains(e),
                forall|j: int| 0 <= j < k ==> event_name(#[trigger] all@[j]) != event@,
            decreases all@.len() - k,
        {
            if str_eq(all[k].name(), event) {
                return true;
            }
            k = k + 1;
        }
        assert forall|e: RepoEvent| event_name(e) != event@ by {
            assert(all@.contains(e));
            let j = choose|j: int| 0 <= j < all@.len() && all@[j] == e;
            assert(event_name(all@[j]) != event@);
        }
        false
    }
}

} // verus!
