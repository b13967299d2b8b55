//! Which token authenticates the dashboard to GitHub.
use vstd::prelude::*;
use vstd::string::*;

use crate::text::trim;

pub mod laws;

verus! {

broadcast use vstd::string::group_string_axioms;

/// There is no token to use.
#[derive(Debug, Clone, Copy, PartialEq, Eq, Structural)]
pub struct NoToken;

impl NoToken {
    /// What to tell the user: it names both ways to provide a token.
    pub fn message(&self) -> (r: String)
        ensures
            r@
                == "No GitHub token found. Either run `gh auth login`, or set GITHUB_TOKEN in your environment."@,
    {
        "No GitHub token found. Either run `gh auth login`, or set GITHUB_TOKEN in your environment.".to_owned()
    }
}

/// What a source offers as a token: its text without the white space around it, where that leaves
/// anything.
pub open spec fn offered(source: Option<Seq<char>>) -> Option<Seq<char>> {
    match source {
        Some(s) => if crate::text::trimmed(s).len() > 0 {
            Some(crate::text::trimmed(s))
        } else {
            None
        },
        None => None,
    }
}

/// The token to use: that of `gh` before that of the environment.
pub open spec fn chosen_token(
    gh_output: Option<Seq<char>>,
    env_token: Option<Seq<char>>,
) -> Option<Seq<char>> {
    match offered(gh_output) {
        Some(t) => Some(t),
        None => offered(env_token),
    }
}

fn offer(source: Option<String>) -> (r: Option<String>)
    ensures
        crate::text::optional_text(r) == offered(crate::text::optional_text(source)),
{
    match source {
        Some(s) => {
            let trimmed = trim(s.as_str());
            if trimmed.as_str().is_empty() {
                None
            } else {
                Some(trimmed)
            }
        },
        None => None,
    }
}

/// Decide which token to use, from what the world reported.
pub fn choose_token(gh_output: Option<String>, env_token: Option<String>) -> (r: Result<
    String,
    NoToken,
>)
    ensures
        ({
            let chosen = chosen_token(
                crate::text::optional_text(gh_output),
                crate::text::optional_text(env_token),
            );
            &&& r is Ok == chosen is Some
            &&& r is Ok ==> r->Ok_0@ == chosen->0
        }),
{
    match offer(gh_output) {
        Some(t) => Ok(t),
        None => match offer(env_token) {
            Some(t) => Ok(t),
            None => Err(NoToken),
        },
    }
}

/// A token is never empty and has no white space around it.
pub proof fn a_chosen_token_is_trimmed(gh_output: Option<Seq<char>>, env_token: Option<Seq<char>>)
    requires
        chosen_token(gh_output, env_token) is Some,
    ensures
        ({
            let t = chosen_token(gh_output, env_token)->0;
            &&& t.len() > 0
            &&& !crate::text::white_space(t.first())
            &&& !crate::text::white_space(t.last())
        }),
{
    let source = if offered(gh_output) is Some {
        gh_output->0
    } else {
        env_token->0
    };
    crate::text::lemma_trimmed_ends(source);
}

/// The environment is used only where `gh` offers nothing.
pub proof fn gh_comes_first(gh_output: Option<Seq<char>>, env_token: Option<Seq<char>>)
    ensures
        offered(gh_output) is Some ==> chosen_token(gh_output, env_token) == offered(gh_output),
        offered(gh_output) is None ==> chosen_token(gh_output, env_token) == offered(env_token),
{
}

} // verus!
