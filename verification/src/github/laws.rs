//! What GitHub is asked, and how its answers are taken.
use vstd::prelude::*;

use super::{GithubError, Repo, RepoListing, Request, Run};

verus! {

/// A request carries the token, asks for GitHub's form of JSON and names the version of the API.
pub open spec fn carries_the_token(headers: Seq<(Seq<char>, Seq<char>)>, token: Seq<char>) -> bool {
    &&& headers.len() >= 3
    &&& headers[0] == ("authorization"@, "Bearer "@ + token)
    &&& headers[1] == ("accept"@, "application/vnd.github+json"@)
    &&& headers[2] == ("x-github-api-version"@, "2022-11-28"@)
}

/// The user is asked for at the address of the user, with the token and nothing more.
pub proof fn the_user_is_asked_for(base_url: Seq<char>, token: Seq<char>)
    ensures
        super::user_request(base_url, token).url == base_url + "/user"@,
        super::user_request(base_url, token).query.len() == 0,
        carries_the_token(super::user_request(base_url, token).headers, token),
        super::user_request(base_url, token).headers.len() == 3,
{
}

/// A page of repositories is asked for by its number, a hundred at a time, latest push first; those
/// of organizations only where they are wanted.
pub proof fn a_page_of_repositories_is_asked_for(
    base_url: Seq<char>,
    token: Seq<char>,
    include_orgs: bool,
    page: nat,
)
    ensures
        ({
            let r = super::repos_request(base_url, token, include_orgs, page);
            &&& r.url == base_url + "/user/repos"@
            &&& r.query.len() == 4
            &&& r.query[0] == ("per_page"@, crate::text::decimal(100))
            &&& r.query[1] == ("page"@, crate::text::decimal(page))
            &&& include_orgs ==> r.query[2] == ("affiliation"@, "owner,organization_member"@)
            &&& !include_orgs ==> r.query[2] == ("affiliation"@, "owner"@)
            &&& r.query[3] == ("sort"@, "pushed"@)
            &&& carries_the_token(r.headers, token)
            &&& r.headers.len() == 3
        }),
{
}

/// The runs of a repository are asked for at its own address, fifty of them; with an `ETag` the
/// request says so, and without one it does not.
pub proof fn the_runs_of_a_repository_are_asked_for(
    base_url: Seq<char>,
    token: Seq<char>,
    full_name: Seq<char>,
    etag: Option<Seq<char>>,
)
    ensures
        ({
            let r = super::runs_request(base_url, token, full_name, etag);
            &&& r.url == base_url + "/repos/"@ + full_name + "/actions/runs"@
            &&& r.query.len() == 1
            &&& r.query[0] == ("per_page"@, crate::text::decimal(50))
            &&& carries_the_token(r.headers, token)
            &&& etag is None ==> r.headers.len() == 3
            &&& etag is Some ==> r.headers.len() == 4 && r.headers[3] == (
                "if-none-match"@,
                etag->0,
            )
        }),
{
}

/// The form of a request holds its address, its query and its headers as they are.
pub proof fn the_form_of_a_request(r: Request)
    ensures
        r@.url == r.url@,
        r@.query.len() == r.query@.len(),
        forall|i: int|
            0 <= i < r.query@.len() ==> #[trigger] r@.query[i] == (r.query@[i].0@, r.query@[i].1@),
        r@.headers.len() == r.headers@.len(),
        forall|i: int|
            0 <= i < r.headers@.len() ==> #[trigger] r@.headers[i] == (
                r.headers@[i].0@,
                r.headers@[i].1@,
            ),
{
}

/// A status is one of success from two hundred on and below three hundred; a token is rejected by
/// the status 401 alone.
pub proof fn what_a_status_means(status: u16, e: GithubError)
    ensures
        super::success(status) <==> 200 <= status && status <= 299,
        e.unauthorized() <==> (e matches GithubError::Status { status, .. } && status == 401),
        e matches GithubError::Status { status, url } ==> e.message_text() == "HTTP "@
            + crate::text::decimal(status as nat) + " from "@ + url@,
        e matches GithubError::Transport(cause) ==> e.message_text() == "request failed: "@ + cause@,
{
}

/// The rate limit is the number that its header writes; without a header, or with one that writes
/// none, it is unknown.
pub proof fn the_rate_limit_is_what_its_header_writes(n: i64, header: Option<Seq<char>>)
    ensures
        header is None ==> super::remaining_calls(header) is None,
        header == Some(crate::text::signed_decimal(n as int)) ==> super::remaining_calls(header)
            == super::optional_int(Some(n)),
        header is Some ==> super::remaining_calls(header) == crate::text::parsed_i64(header->0),
        super::optional_int(Some(n)) == Some(n as int),
        super::optional_int(None) is None,
{
    crate::text::laws::written_numbers_are_read_back(n);
}

/// The subject of a run's commit is where its message begins, up to the first line feed; a run
/// without a commit has an empty one. A run started when GitHub says or, where it does not say,
/// when it was last updated.
pub proof fn what_a_run_says_of_itself(run: Run)
    ensures
        run.head_commit is None ==> run.subject().len() == 0,
        run.head_commit matches Some(c) ==> run.subject().len() <= c.message@.len()
            && run.subject() == c.message@.take(run.subject().len() as int) && (forall|i: int|
            0 <= i < run.subject().len() ==> #[trigger] c.message@[i] != '\n') && (
        run.subject().len() < c.message@.len() ==> c.message@[run.subject().len() as int] == '\n'
            || c.message@[run.subject().len() as int] == '\r'),
        run.run_started_at matches Some(t) ==> run.start() == t@,
        run.run_started_at is None ==> run.start() == run.updated_at@,
{
    if let Some(c) = run.head_commit {
        crate::text::laws::the_first_line_ends_at_the_first_line_feed(c.message@);
    }
}

/// A page that arrives adds its repositories behind the others, in its order, and none is lost; a
/// full page is followed by the next number, and one with fewer than a hundred is the last.
pub proof fn a_page_adds_its_repositories(before: RepoListing, batch: Seq<Repo>, after: RepoListing)
    requires
        super::took(before, batch, after),
    ensures
        after.repos@.len() == before.repos@.len() + batch.len(),
        forall|i: int|
            0 <= i < before.repos@.len() ==> #[trigger] after.repos@[i] == before.repos@[i],
        forall|i: int|
            0 <= i < batch.len() ==> after.repos@[before.repos@.len() + i] == #[trigger] batch[i],
        batch.len() < 100 ==> after.done && after.page == before.page,
        batch.len() >= 100 ==> !after.done && after.page == before.page + 1,
        after.include_orgs == before.include_orgs,
{
}

/// A new listing has nothing yet and asks for the first page.
pub proof fn a_listing_starts_at_the_first_page(listing: RepoListing)
    requires
        super::has_taken(listing, Seq::empty()),
    ensures
        listing.repos@.len() == 0,
        listing.page == 1,
        !listing.done,
{
}

/// The dashboard asks GitHub's own API, under its own name, and waits half a minute at most.
pub proof fn how_github_is_asked()
    ensures
        super::GITHUB_API@ == "https://api.github.com"@,
        super::USER_AGENT@ == "gh-web-dash"@,
        super::REQUEST_TIMEOUT_SECS == 30,
{
}

} // verus!
