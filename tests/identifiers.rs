use git_chest::client::{check_status, GitHubEndpoints};
use git_chest::error::AppError;
use git_chest::models::{DbPlatformRepo, DbRepoPreview, RepoPreview, RepoPreviewOwner};
use git_chest::platforms::{Platform, RepoEvent, Settings, Theme};

#[test]
fn platform_names() {
    assert_eq!(Platform::from_str("github").unwrap(), Platform::GitHub);
    assert_eq!(Platform::from_str("gitea").unwrap(), Platform::Gitea);
    assert_eq!(Platform::from_str("gitlab").unwrap(), Platform::GitLab);
    assert_eq!(Platform::from_str("bitbucket").unwrap(), Platform::Bitbucket);
    assert!(matches!(Platform::from_str("GitHub"), Err(AppError::Validation(_))));
    assert_eq!(Platform::GitHub.name(), "github");
}

#[test]
fn theme_names() {
    assert_eq!(Theme::from_str("dark").unwrap(), Theme::Dark);
    assert_eq!(Theme::from_str("light").unwrap(), Theme::Light);
    match Theme::from_str("blue") {
        Err(AppError::Custom(m)) => assert_eq!(m, "No theme found: blue"),
        other => panic!("unexpected: {:?}", other),
    }
    let s = Settings::defaults();
    assert_eq!(s.theme, Theme::Dark);
    assert!(!s.auto_sync);
    assert!(s.auth.github_token.is_none());
}

#[test]
fn watch_events() {
    for name in ["branch", "contributor", "commit", "discussion", "fork", "issue", "pull_request", "release", "star", "tag"] {
        assert!(RepoEvent::is_valid(name), "{name}");
    }
    assert!(!RepoEvent::is_valid("pullrequest"));
    assert!(!RepoEvent::is_valid(""));
    assert_eq!(RepoEvent::list().len(), 10);
    assert_eq!(RepoEvent::PullRequest.name(), "pull_request");
}

#[test]
fn status_codes() {
    assert!(check_status(200, String::new()).is_ok());
    assert!(check_status(204, String::new()).is_ok());
    match check_status(404, "Not Found".to_string()) {
        Err(AppError::Upstream(b)) => assert_eq!(b, "Not Found"),
        other => panic!("unexpected: {:?}", other),
    }
    assert!(check_status(301, String::new()).is_err());
    assert!(check_status(500, String::new()).is_err());
}

#[test]
fn endpoint_addresses() {
    let api = GitHubEndpoints::init();
    assert_eq!(api.repo_url("octo", "hello"), "https://api.github.com/repos/octo/hello");
    assert_eq!(
        api.tree_url("octo", "hello", "main"),
        "https://api.github.com/repos/octo/hello/git/trees/main?recursive=true"
    );
    assert_eq!(
        api.raw_file_url("octo", "hello", "main", "README.md"),
        "https://raw.githubusercontent.com/octo/hello/main/README.md"
    );
}

#[test]
fn app_dirs_end_with_app_name() {
    for d in [git_chest::paths::get_data_dir(), git_chest::paths::get_config_dir(), git_chest::paths::get_cache_dir()]
        .into_iter()
        .flatten()
    {
        assert!(d.ends_with("/big-brain"));
    }
    assert_eq!(git_chest::paths::join("/a", "b"), "/a/b");
}

#[test]
fn preview_assembly() {
    let p = RepoPreview::from_parts(
        DbRepoPreview {
            id: 3,
            platform: "github".to_string(),
            repo: "hello".to_string(),
            clone_data: false,
            updated_at: "t".to_string(),
        },
        DbPlatformRepo {
            description: "d".to_string(),
            stars: 5,
            forks: 2,
            issues: 1,
            pull_requests: 0,
            visibility: "public".to_string(),
        },
        RepoPreviewOwner { id: 8, user: "octo".to_string(), avatar: "/a/8".to_string() },
    );
    assert_eq!((p.id, p.stars, p.forks, p.issues, p.owner.id), (3, 5, 2, 1, 8));
    assert_eq!(p.description, "d");
}

#[test]
fn error_messages() {
    assert_eq!(AppError::Upstream("Not Found".to_string()).message(), "Upstream: Not Found");
    assert_eq!(AppError::Custom("x".to_string()).message(), "App: x");
    match AppError::new::<()>("boom") {
        Err(AppError::Custom(m)) => assert_eq!(m, "boom"),
        other => panic!("unexpected: {:?}", other),
    }
}
