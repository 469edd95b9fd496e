use vstd::prelude::*;

use crate::error::AppError;
use crate::text::{push_str, string_of};

verus! {

/// The resource class that metadata and tree calls are charged to.
pub const CORE_RESOURCE: &'static str = "core";

/// Whether an HTTP status is a success (2xx).
pub open spec fn is_success(status: u16) -> bool {
    200 <= status <= 299
}

/// Fails with `Upstream`, carrying the response body, on any non-success
/// status.
pub fn check_status(status: u16, body: String) -> (r: Result<(), AppError>)
    ensures
        r is Ok <==> is_success(status),
        r matches Err(e) ==> (e matches AppError::Upstream(b) && b == body),
{
    if 200 <= status && status <= 299 {
        Ok(())
    } else {
        Err(AppError::Upstream(body))
    }
}

/// The base addresses of the hosting platform's API and raw content.
#[derive(Debug, Clone)]
pub struct GitHubEndpoints {
    pub base_url: String,
    pub base_content_url: String,
}

pub open spec fn repo_url_of(base: Seq<char>, user: Seq<char>, repo: Seq<char>) -> Seq<char> {
    base + "/repos/"@ + user + "/"@ + repo
}

pub open spec fn tree_url_of(base: Seq<char>, user: Seq<char>, repo: Seq<char>, branch: Seq<char>) -> Seq<char> {
    repo_url_of(base, user, repo) + "/git/trees/"@ + branch + "?recursive=true"@
}

pub open spec fn raw_file_url_of(
    base: Seq<char>,
    user: Seq<char>,
    repo: Seq<char>,
    branch: Seq<char>,
    path: Seq<char>,
) -> Seq<char> {
    base + "/"@ + user + "/"@ + repo + "/"@ + branch + "/"@ + path
}

impl GitHubEndpoints {
    /// The public endpoints.
    pub fn init() -> (r: GitHubEndpoints)
        ensures
            r.base_url@ == "https://api.github.com"@,
            r.base_content_url@ == "https://raw.githubusercontent.com"@,
    {
        GitHubEndpoints {
            base_url: "https://api.github.com".to_owned(),
            base_content_url: "https://raw.githubusercontent.com".to_owned(),
        }
    }

    /// The address of a repository's metadata.
    pub fn repo_url(&self, user: &str, repo: &str) -> (r: String)
        ensures
            r@ == repo_url_of(self.base_url@, user@, repo@),
    {
        let mut v: Vec<char> = Vec::new();
        push_str(&mut v, self.base_url.as_str());
        push_str(&mut v, "/repos/");
        push_str(&mut v, user);
        push_str(&mut v, "/");
        push_str(&mut v, repo);
        assert(v@ =~= repo_url_of(self.base_url@, user@, repo@));
        string_of(v.as_slice())
    }

    /// The address of a branch's recursive tree listing.
    pub fn tree_url(&self, user: &str, repo: &str, branch: &str) -> (r: String)
        ensures
            r@ == tree_url_of(self.base_url@, user@, repo@, branch@),
    {
        let mut v: Vec<char> = Vec::new();
        push_str(&mut v, self.base_url.as_str());
        push_str(&mut v, "/repos/");
        push_str(&mut v, user);
        push_str(&mut v, "/");
        push_str(&mut v, repo);
        push_str(&mut v, "/git/trees/");
        push_str(&mut v, branch);
        push_str(&mut v, "?recursive=true");
        assert(v@ =~= tree_url_of(self.base_url@, user@, repo@, branch@));
        string_of(v.as_slice())
    }

    /// The address of a file's raw content on a branch.
    pub fn raw_file_url(&self, user: &str, repo: &str, branch: &str, path: &str) -> (r: String)
        ensures
            r@ == raw_file_url_of(self.base_content_url@, user@, repo@, branch@, path@),
    {
        let mut v: Vec<char> = Vec::new();
        push_str(&mut v, self.base_content_url.as_str());
        push_str(&mut v, "/");
        push_str(&mut v, user);
        push_str(&mut v, "/");
        push_str(&mut v, repo);
        push_str(&mut v, "/");
        push_str(&mut v, branch);
        push_str(&mut v, "/");
        push_str(&mut v, path);
        assert(v@ =~= raw_file_url_of(self.base_content_url@, user@, repo@, branch@, path@));
        string_of(v.as_slice())
    }
}

} // verus!
