//! What is asked of GitHub, and what its answers mean.
use vstd::prelude::*;
use vstd::string::*;

use crate::text::{copied, decimal_text, first_line_of, parse_i64, trim_trailing_slashes};

pub mod laws;

verus! {

broadcast use vstd::string::group_string_axioms;

/// Where GitHub answers.
pub const GITHUB_API: &'static str = "https://api.github.com";

/// The name under which the dashboard asks.
pub const USER_AGENT: &'static str = "gh-web-dash";

// Fetched per repository across ALL its workflows, so a repo with three
// workflows yields roughly a third of this each: enough to fill the history
// strips. Same request count as 20; ETags keep warm cycles free.
pub const RUNS_PER_REPO: u64 = 50;

/// How many repositories are asked for at once.
pub const REPOS_PER_PAGE: u64 = 100;

/// Without a timeout, one hung request stalls the whole poll cycle.
pub const REQUEST_TIMEOUT_SECS: u64 = 30;

/// Why GitHub could not be asked.
#[derive(Debug)]
pub enum GithubError {
    /// It answered with a status other than success.
    Status { status: u16, url: String },
    /// The request or the reading of the answer failed, for this reason.
    Transport(String),
}

impl GithubError {
    /// The text of [`GithubError::message`].
    pub open spec fn message_text(self) -> Seq<char> {
        match self {
            GithubError::Status { status, url } => "HTTP "@ + crate::text::decimal(status as nat)
                + " from "@ + url@,
            GithubError::Transport(cause) => "request failed: "@ + cause@,
        }
    }

    /// What to tell the user.
    pub fn message(&self) -> (r: String)
        ensures
            r@ == self.message_text(),
    {
        match self {
            GithubError::Status { status, url } => "HTTP ".to_owned().concat(
                decimal_text(*status as u64).as_str(),
            ).concat(" from ").concat(url.as_str()),
            GithubError::Transport(cause) => "request failed: ".to_owned().concat(cause.as_str()),
        }
    }

    /// GitHub does not accept the token.
    pub open spec fn unauthorized(self) -> bool {
        self is Status && self->status == 401
    }

    /// Whether GitHub does not accept the token.
    pub fn is_unauthorized(&self) -> (r: bool)
        ensures
            r == self.unauthorized(),
    {
        match self {
            GithubError::Status { status, .. } => *status == 401,
            GithubError::Transport(_) => false,
        }
    }
}

/// A repository as GitHub lists it.
#[derive(Debug, Clone)]
pub struct Repo {
    pub full_name: String,
    pub default_branch: String,
    pub archived: bool,
    /// RFC 3339. `None` where nothing was ever pushed.
    pub pushed_at: Option<String>,
}

/// Who started a run.
#[derive(Debug, Clone)]
pub struct Actor {
    pub login: String,
    pub actor_type: String,
}

/// The commit of a run.
#[derive(Debug, Clone)]
pub struct Commit {
    pub message: String,
}

/// A workflow run as GitHub lists it.
#[derive(Debug, Clone)]
pub struct Run {
    pub id: i64,
    /// GitHub's ID for the workflow this run belongs to.
    pub workflow_id: Option<i64>,
    pub workflow_name: String,
    /// The file of the workflow. It addresses the workflow's own page.
    pub path: Option<String>,
    pub head_branch: String,
    pub status: String,
    pub conclusion: Option<String>,
    pub head_sha: String,
    pub html_url: String,
    pub run_started_at: Option<String>,
    pub updated_at: String,
    pub actor: Actor,
    pub head_commit: Option<Commit>,
}

impl Run {
    /// The first line of the commit message: empty where there is no commit.
    pub open spec fn subject(self) -> Seq<char> {
        match self.head_commit {
            Some(c) => crate::text::first_line(c.message@),
            None => Seq::empty(),
        }
    }

    /// When the run started, or else when it was last updated.
    pub open spec fn start(self) -> Seq<char> {
        match self.run_started_at {
            Some(t) => t@,
            None => self.updated_at@,
        }
    }

    /// The first line of the commit message.
    pub fn commit_subject(&self) -> (r: String)
        ensures
            r@ == self.subject(),
    {
        match &self.head_commit {
            Some(c) => first_line_of(c.message.as_str()),
            None => String::new(),
        }
    }

    /// When the run started, falling back to `updated_at` if GitHub omits it.
    pub fn started_at(&self) -> (r: String)
        ensures
            r@ == self.start(),
    {
        match &self.run_started_at {
            Some(t) => t.clone(),
            None => self.updated_at.clone(),
        }
    }
}

/// The answer about the runs of a repository.
#[derive(Debug)]
pub struct RunsResponse {
    pub runs: Vec<Run>,
    pub etag: Option<String>,
    pub not_modified: bool,
    pub rate_limit_remaining: Option<i64>,
}

/// What stands before the body of an answer: its status, and two of its headers where they are
/// there and are text.
#[derive(Debug)]
pub struct ReplyHead {
    pub status: u16,
    pub etag: Option<String>,
    pub rate_limit_remaining: Option<String>,
}

/// A request for `url`, with its query and headers.
#[derive(Debug)]
pub struct Request {
    pub url: String,
    pub query: Vec<(String, String)>,
    pub headers: Vec<(String, String)>,
}

/// The mathematical form of a [`Request`].
#[verifier::ext_equal]
pub struct RequestView {
    pub url: Seq<char>,
    pub query: Seq<(Seq<char>, Seq<char>)>,
    pub headers: Seq<(Seq<char>, Seq<char>)>,
}

/// Names with their values.
pub open spec fn pairs(list: Seq<(String, String)>) -> Seq<(Seq<char>, Seq<char>)> {
    list.map_values(|p: (String, String)| (p.0@, p.1@))
}

impl View for Request {
    type V = RequestView;

    open spec fn view(&self) -> RequestView {
        RequestView {
            url: self.url@,
            query: pairs(self.query@),
            headers: pairs(self.headers@),
        }
    }
}

/// A status of success.
pub open spec fn success(status: u16) -> bool {
    200 <= status < 300
}

/// Whether a status is one of success.
pub fn is_success(status: u16) -> (r: bool)
    ensures
        r == success(status),
{
    200 <= status && status < 300
}

/// The headers of every request.
pub open spec fn common_headers(token: Seq<char>) -> Seq<(Seq<char>, Seq<char>)> {
    seq![
        ("authorization"@, "Bearer "@ + token),
        ("accept"@, "application/vnd.github+json"@),
        ("x-github-api-version"@, "2022-11-28"@),
    ]
}

/// The request for the user that the token stands for.
pub open spec fn user_request(base_url: Seq<char>, token: Seq<char>) -> RequestView {
    RequestView {
        url: base_url + "/user"@,
        query: Seq::empty(),
        headers: common_headers(token),
    }
}

/// Whose repositories are asked for.
pub open spec fn affiliation(include_orgs: bool) -> Seq<char> {
    if include_orgs {
        "owner,organization_member"@
    } else {
        "owner"@
    }
}

/// The request for one page of the repositories.
pub open spec fn repos_request(
    base_url: Seq<char>,
    token: Seq<char>,
    include_orgs: bool,
    page: nat,
) -> RequestView {
    RequestView {
        url: base_url + "/user/repos"@,
        query: seq![
            ("per_page"@, crate::text::decimal(REPOS_PER_PAGE as nat)),
            ("page"@, crate::text::decimal(page)),
            ("affiliation"@, affiliation(include_orgs)),
            ("sort"@, "pushed"@),
        ],
        headers: common_headers(token),
    }
}

/// Where the runs of a repository are.
pub open spec fn runs_url(base_url: Seq<char>, full_name: Seq<char>) -> Seq<char> {
    base_url + "/repos/"@ + full_name + "/actions/runs"@
}

/// The request for the runs of a repository. An `ETag` asks for them only where they have changed
/// since.
pub open spec fn runs_request(
    base_url: Seq<char>,
    token: Seq<char>,
    full_name: Seq<char>,
    etag: Option<Seq<char>>,
) -> RequestView {
    RequestView {
        url: runs_url(base_url, full_name),
        query: seq![("per_page"@, crate::text::decimal(RUNS_PER_REPO as nat))],
        headers: match etag {
            Some(tag) => common_headers(token).push(("if-none-match"@, tag)),
            None => common_headers(token),
        },
    }
}

/// The calls that a rate limit leaves, as a header says it.
pub open spec fn remaining_calls(header: Option<Seq<char>>) -> Option<int> {
    match header {
        Some(text) => crate::text::parsed_i64(text),
        None => None,
    }
}

/// An optional number, as a mathematical one.
pub open spec fn optional_int(n: Option<i64>) -> Option<int> {
    match n {
        Some(v) => Some(v as int),
        None => None,
    }
}

/// Asks GitHub for the user of the dashboard.
#[derive(Debug)]
pub struct Client {
    pub base_url: String,
    pub token: String,
}

impl Clone for Client {
    fn clone(&self) -> (r: Client)
        ensures
            r == *self,
    {
        Client { base_url: self.base_url.clone(), token: self.token.clone() }
    }
}

fn pair(name: &str, value: &str) -> (r: (String, String))
    ensures
        r.0@ == name@,
        r.1@ == value@,
{
    (name.to_owned(), value.to_owned())
}

impl Client {
    /// A client of the API at `base_url`, which may end in slashes.
    pub fn new(base_url: String, token: String) -> (r: Client)
        ensures
            r.base_url@ == crate::text::without_trailing_slashes(base_url@),
            r.token == token,
    {
        Client { base_url: trim_trailing_slashes(base_url.as_str()), token }
    }

    /// A request for `url`, with the headers that every request has.
    fn get(&self, url: String) -> (r: Request)
        ensures
            r@ == (RequestView {
                url: url@,
                query: Seq::empty(),
                headers: common_headers(self.token@),
            }),
    {
        let mut headers: Vec<(String, String)> = Vec::new();
        let bearer = "Bearer ".to_owned().concat(self.token.as_str());
        headers.push(pair("authorization", bearer.as_str()));
        headers.push(pair("accept", "application/vnd.github+json"));
        headers.push(pair("x-github-api-version", "2022-11-28"));
        let r = Request { url, query: Vec::new(), headers };
        assert(r@.headers =~= common_headers(self.token@));
        assert(r@.query =~= Seq::empty());
        r
    }

    /// The request for the user that the token stands for.
    pub fn current_user_request(&self) -> (r: Request)
        ensures
            r@ == user_request(self.base_url@, self.token@),
    {
        self.get(self.base_url.clone().concat("/user"))
    }

    /// Who the token stands for, given the status of the answer and the login in its body, which
    /// counts only where the status is one of success.
    pub fn current_user(&self, status: u16, login: String) -> (r: Result<String, GithubError>)
        ensures
            r is Ok == success(status),
            r is Ok ==> r->Ok_0 == login,
            r matches Err(e) ==> e is Status && e->status == status && e->url@ == self.base_url@
                + "/user"@,
    {
        if !is_success(status) {
            return Err(GithubError::Status { status, url: self.base_url.clone().concat("/user") });
        }
        Ok(login)
    }

    /// All repositories the user can see. `include_orgs` controls whether
    /// organization repositories are included alongside their own. They come page by page.
    pub fn list_repos(&self, include_orgs: bool) -> (r: RepoListing)
        ensures
            r.include_orgs == include_orgs,
            has_taken(r, Seq::empty()),
    {
        RepoListing { include_orgs, page: 1, repos: Vec::new(), done: false }
    }

    /// The request for the runs of a repository.
    pub fn list_runs_request(&self, full_name: &str, etag: Option<&str>) -> (r: Request)
        ensures
            r@ == runs_request(
                self.base_url@,
                self.token@,
                full_name@,
                crate::text::optional_str(etag),
            ),
    {
        let mut r = self.get(self.runs_url(full_name));
        r.query.push(pair("per_page", decimal_text(RUNS_PER_REPO).as_str()));
        assert(r@.query =~= seq![("per_page"@, crate::text::decimal(RUNS_PER_REPO as nat))]);
        let ghost before = r@.headers;
        if let Some(tag) = etag {
            r.headers.push(pair("if-none-match", tag));
            assert(r@.headers =~= before.push(("if-none-match"@, tag@)));
        }
        r
    }

    fn runs_url(&self, full_name: &str) -> (r: String)
        ensures
            r@ == runs_url(self.base_url@, full_name@),
    {
        self.base_url.clone().concat("/repos/").concat(full_name).concat("/actions/runs")
    }

    /// What the answer about the runs of a repository says, given what stands before its body and
    /// the runs in its body, which count only where the status is one of success.
    pub fn list_runs(&self, full_name: &str, head: &ReplyHead, runs: Vec<Run>) -> (r: Result<
        RunsResponse,
        GithubError,
    >)
        ensures
            r is Ok == (head.status == 304 || success(head.status)),
            r matches Ok(resp) ==> resp.not_modified == (head.status == 304) && resp.etag
                == head.etag && optional_int(resp.rate_limit_remaining) == remaining_calls(
                crate::text::optional_text(head.rate_limit_remaining),
            ) && (if head.status == 304 {
                resp.runs@.len() == 0
            } else {
                resp.runs == runs
            }),
            r matches Err(e) ==> e is Status && e->status == head.status && e->url@ == runs_url(
                self.base_url@,
                full_name@,
            ),
    {
        let rate_limit_remaining: Option<i64> = match &head.rate_limit_remaining {
            Some(text) => parse_i64(text.as_str()),
            None => None,
        };
        let etag = copied(&head.etag);
        if head.status == 304 {
            return Ok(
                RunsResponse { runs: Vec::new(), etag, not_modified: true, rate_limit_remaining },
            );
        }
        if !is_success(head.status) {
            return Err(GithubError::Status { status: head.status, url: self.runs_url(full_name) });
        }
        Ok(RunsResponse { runs, etag, not_modified: false, rate_limit_remaining })
    }
}

/// The repositories of the user, as far as their pages have come.
#[derive(Debug)]
pub struct RepoListing {
    pub include_orgs: bool,
    /// The page to ask for next.
    pub page: u64,
    pub repos: Vec<Repo>,
    /// Nothing is left to ask for.
    pub done: bool,
}

impl RepoListing {
    /// The request for the next page.
    pub fn request(&self, client: &Client) -> (r: Request)
        ensures
            r@ == repos_request(
                client.base_url@,
                client.token@,
                self.include_orgs,
                self.page as nat,
            ),
    {
        let who: &str = if self.include_orgs {
            "owner,organization_member"
        } else {
            "owner"
        };
        let mut r = client.get(client.base_url.clone().concat("/user/repos"));
        assert(r@.query.len() == 0);
        r.query.push(pair("per_page", decimal_text(REPOS_PER_PAGE).as_str()));
        r.query.push(pair("page", decimal_text(self.page).as_str()));
        r.query.push(pair("affiliation", who));
        r.query.push(pair("sort", "pushed"));
        assert(r@.query =~= repos_request(
            client.base_url@,
            client.token@,
            self.include_orgs,
            self.page as nat,
        ).query);
        r
    }

    /// Takes a page, given the status of the answer and the repositories in its body, which count
    /// only where the status is one of success. A page that is not full is the last one.
    pub fn receive(&mut self, client: &Client, status: u16, batch: Vec<Repo>) -> (r: Result<
        (),
        GithubError,
    >)
        requires
            !old(self).done,
            old(self).page < u64::MAX,
        ensures
            r is Ok == success(status),
            r is Ok ==> took(*old(self), batch@, *final(self)),
            r matches Err(e) ==> e is Status && e->status == status && e->url@ == client.base_url@
                + "/user/repos"@ && *final(self) == *old(self),
    {
        if !is_success(status) {
            return Err(
                GithubError::Status { status, url: client.base_url.clone().concat("/user/repos") },
            );
        }
        let mut rest = batch;
        let last: bool = (rest.len() as u64) < REPOS_PER_PAGE;
        self.repos.append(&mut rest);
        self.done = last;
        if !last {
            self.page = self.page + 1;
        }
        Ok(())
    }
}

/// The listing `after` is `before` with one more page: its repositories come after the others, and
/// where the page is not full, it is the last one.
pub open spec fn took(before: RepoListing, batch: Seq<Repo>, after: RepoListing) -> bool {
    &&& after.include_orgs == before.include_orgs
    &&& after.repos@ == before.repos@ + batch
    &&& after.done == (batch.len() < REPOS_PER_PAGE)
    &&& after.page == before.page + if after.done {
        0int
    } else {
        1int
    }
}

/// The repositories on these pages, one after the other.
pub open spec fn joined(pages: Seq<Seq<Repo>>) -> Seq<Repo>
    decreases pages.len(),
{
    if pages.len() == 0 {
        Seq::empty()
    } else {
        joined(pages.drop_last()) + pages.last()
    }
}

/// A listing that has taken these pages: it holds their repositories, it is done with the first
/// page that is not full, and it asks for the next one until then.
pub open spec fn has_taken(listing: RepoListing, pages: Seq<Seq<Repo>>) -> bool {
    &&& listing.repos@ == joined(pages)
    &&& forall|i: int|
        0 <= i < pages.len() - 1 ==> (#[trigger] pages[i]).len() >= REPOS_PER_PAGE
    &&& listing.done == (pages.len() > 0 && pages.last().len() < REPOS_PER_PAGE)
    &&& listing.page == pages.len() + if listing.done {
        0int
    } else {
        1int
    }
}

/// A page that arrives is taken after those before it: so the listing asks for the pages one after
/// the other, ends with the first that is not full, and then holds the repositories of all.
pub proof fn a_listing_joins_its_pages(
    before: RepoListing,
    pages: Seq<Seq<Repo>>,
    batch: Seq<Repo>,
    after: RepoListing,
)
    requires
        has_taken(before, pages),
        !before.done,
        took(before, batch, after),
    ensures
        has_taken(after, pages.push(batch)),
{
    let all = pages.push(batch);
    assert(all.drop_last() =~= pages);
    assert forall|i: int| 0 <= i < all.len() - 1 implies (#[trigger] all[i]).len()
        >= REPOS_PER_PAGE by {
        assert(all[i] == pages[i]);
    }
}

} // verus!
