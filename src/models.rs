use vstd::prelude::*;

verus! {

/// A stored repository record.
#[derive(Debug, Clone)]
pub struct Repo {
    pub id: i64,
    pub platform: String,
    pub user: String,
    pub repo: String,
    pub clone_data: bool,
    /// 0 = disabled, 1 = enabled, 2 = use the global setting.
    pub auto_sync: u8,
    pub created_at: String,
    pub updated_at: String,
}

/// A request to add a repository.
#[derive(Debug, Clone)]
pub struct AddRepoData {
    pub platform: String,
    pub user: String,
    pub repo: String,
    pub clone_data: bool,
    pub auto_sync: u8,
    /// Whether to add submodules as repositories.
    pub add_submodules: bool,
    pub watch_events: Vec<String>,
}

/// The owner of a repository, as the metadata endpoint reports it.
#[derive(Debug, Clone)]
pub struct GitHubAPIRepoOwner {
    pub login: String,
    pub id: i32,
    pub node_id: String,
    pub gravatar_id: String,
    pub kind: String,
    pub site_admin: bool,
}

/// The license of a repository, as the metadata endpoint reports it.
#[derive(Debug, Clone)]
pub struct GitHubAPIRepoLicense {
    pub key: String,
    pub name: String,
    pub spdx_id: String,
    pub node_id: String,
}

/// The organization of a repository, as the metadata endpoint reports it.
#[derive(Debug, Clone)]
pub struct GitHubAPIRepoOrganization {
    pub login: String,
    pub id: i32,
    pub node_id: String,
    pub gravatar_id: String,
    pub kind: String,
    pub site_admin: bool,
}

/// The repository descriptor of the metadata endpoint.
#[derive(Debug, Clone)]
pub struct GitHubAPIRepo {
    pub id: i32,
    pub node_id: String,
    pub name: String,
    pub full_name: String,
    pub private: bool,
    pub owner: GitHubAPIRepoOwner,
    pub description: String,
    pub fork: bool,
    pub created_at: String,
    pub updated_at: String,
    pub pushed_at: String,
    pub homepage: Option<String>,
    pub size: i32,
    pub stargazers_count: i32,
    pub watchers_count: i32,
    pub language: String,
    pub has_issues: bool,
    pub has_projects: bool,
    pub has_downloads: bool,
    pub has_wiki: bool,
    pub has_pages: bool,
    pub has_discussions: bool,
    pub forks_count: i32,
    pub archived: bool,
    pub disabled: bool,
    pub open_issues_count: i32,
    pub license: GitHubAPIRepoLicense,
    pub allow_forking: bool,
    pub is_template: bool,
    pub web_commit_signoff_required: bool,
    pub topics: Vec<String>,
    pub visibility: String,
    pub forks: i32,
    pub open_issues: i32,
    pub watchers: i32,
    pub default_branch: String,
    pub custom_properties: Vec<(String, String)>,
    pub organization: Option<GitHubAPIRepoOrganization>,
    pub network_count: i32,
    pub subscribers_count: i32,
}

/// One stored README asset: one per downloaded image reference.
#[derive(Debug, Clone)]
pub struct ReadmeAsset {
    pub id: i64,
    pub repo_id: i64,
    /// Always `image`.
    pub kind: String,
    pub ext: Option<String>,
    pub url: String,
    pub alt: Option<String>,
}

/// The owner shown in a repository preview.
#[derive(Debug, Clone)]
pub struct RepoPreviewOwner {
    pub id: i64,
    pub user: String,
    pub avatar: String,
}

/// The stored part of a repository preview.
#[derive(Debug, Clone)]
pub struct DbRepoPreview {
    pub id: i64,
    pub platform: String,
    pub repo: String,
    pub clone_data: bool,
    pub updated_at: String,
}

/// The platform-specific part of a repository preview.
#[derive(Debug, Clone)]
pub struct DbPlatformRepo {
    pub description: String,
    pub stars: i32,
    pub forks: i32,
    pub issues: i32,
    pub pull_requests: i32,
    pub visibility: String,
}

/// The stored owner of a platform repository.
#[derive(Debug, Clone)]
pub struct DbRepoPreviewOwner {
    pub id: i64,
    pub login: String,
}

/// A repository as listed for browsing.
#[derive(Debug, Clone)]
pub struct RepoPreview {
    pub id: i64,
    pub platform: String,
    pub repo: String,
    pub clone_data: bool,
    pub updated_at: String,
    pub owner: RepoPreviewOwner,
    pub description: String,
    pub stars: i32,
    pub forks: i32,
    pub issues: i32,
    pub pull_requests: i32,
}

impl RepoPreview {
    /// Assembles a preview from the stored record, the platform part and
    /// the owner.
    pub fn from_parts(repo: DbRepoPreview, platform_repo: DbPlatformRepo, owner: RepoPreviewOwner) -> (r: RepoPreview)
        ensures
            r.id == repo.id && r.platform == repo.platform && r.repo == repo.repo,
            r.clone_data == repo.clone_data && r.updated_at == repo.updated_at,
            r.owner == owner,
            r.description == platform_repo.description && r.stars == platform_repo.stars,
            r.forks == platform_repo.forks && r.issues == platform_repo.issues,
            r.pull_requests == platform_repo.pull_requests,
    {
        RepoPreview {
            id: repo.id,
            platform: repo.platform,
            repo: repo.repo,
            clone_data: repo.clone_data,
            updated_at: repo.updated_at,
            owner,
            description: platform_repo.description,
            stars: platform_repo.stars,
            forks: platform_repo.forks,
            issues: platform_repo.issues,
            pull_requests: platform_repo.pull_requests,
        }
    }
}

/// A platform user, as the user endpoint reports it.
#[derive(Debug, Clone)]
pub struct GitHubUser {
    pub login: String,
    pub id: i32,
    pub node_id: String,
    pub avatar_url: String,
    pub gravatar_id: String,
    /// `User` or `Organization`.
    pub kind: String,
    pub site_admin: bool,
    pub name: Option<String>,
    pub company: Option<String>,
    pub blog: String,
    pub location: Option<String>,
    pub hireable: Option<bool>,
    pub bio: Option<String>,
    pub twitter_username: Option<String>,
    pub public_repos: i32,
    pub public_gists: i32,
    pub followers: i32,
    pub following: i32,
    pub created_at: String,
    pub updated_at: String,
}

} // verus!
