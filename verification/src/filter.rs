//! Which workflow runs are kept.
use vstd::prelude::*;
use vstd::string::*;

use crate::text::{lower_ends_with, same_ignoring_case, text_eq};

pub mod laws;

verus! {

broadcast use vstd::string::group_string_axioms;

/// The fields of a workflow run that decide whether it belongs in the feed.
#[derive(Debug, Clone)]
pub struct RunCandidate {
    pub branch: String,
    pub actor_login: String,
    pub actor_type: String,
}

/// An actor is a bot by its type, or by the `[bot]` that its login ends with; the case of ASCII
/// letters does not matter.
pub open spec fn bot(actor_login: Seq<char>, actor_type: Seq<char>) -> bool {
    ||| crate::text::lower(actor_type) == crate::text::lower("bot"@)
    ||| "[bot]"@.is_suffix_of(crate::text::lower(actor_login))
}

/// A run is kept when no bot started it, and it is on the default branch or was started by the
/// user.
pub open spec fn kept(
    branch: Seq<char>,
    actor_login: Seq<char>,
    actor_type: Seq<char>,
    default_branch: Seq<char>,
    current_user: Seq<char>,
) -> bool {
    &&& !bot(actor_login, actor_type)
    &&& branch == default_branch || crate::text::lower(actor_login) == crate::text::lower(
        current_user,
    )
}

/// Whether an actor is a bot.
pub fn is_bot(actor_login: &str, actor_type: &str) -> (r: bool)
    ensures
        r == bot(actor_login@, actor_type@),
{
    same_ignoring_case(actor_type, "bot") || lower_ends_with(actor_login, "[bot]")
}

/// Keep runs on the default branch, plus runs authored by the current user.
/// Bot-authored runs are never kept.
pub fn should_keep(c: &RunCandidate, default_branch: &str, current_user: &str) -> (r: bool)
    ensures
        r == kept(c.branch@, c.actor_login@, c.actor_type@, default_branch@, current_user@),
{
    if is_bot(c.actor_login.as_str(), c.actor_type.as_str()) {
        return false;
    }
    text_eq(c.branch.as_str(), default_branch) || same_ignoring_case(
        c.actor_login.as_str(),
        current_user,
    )
}

/// A run that a bot started is kept on no branch, for no user.
pub proof fn bot_runs_are_never_kept(
    branch: Seq<char>,
    actor_login: Seq<char>,
    actor_type: Seq<char>,
    default_branch: Seq<char>,
    current_user: Seq<char>,
)
    requires
        bot(actor_login, actor_type),
    ensures
        !kept(branch, actor_login, actor_type, default_branch, current_user),
{
}

/// Whether a run is kept does not depend on the case of the ASCII letters in the actor's login and
/// type, nor in the user's name.
pub proof fn keeping_ignores_case(
    branch: Seq<char>,
    login: Seq<char>,
    other_login: Seq<char>,
    actor_type: Seq<char>,
    other_type: Seq<char>,
    default_branch: Seq<char>,
    user: Seq<char>,
    other_user: Seq<char>,
)
    requires
        crate::text::lower(login) == crate::text::lower(other_login),
        crate::text::lower(actor_type) == crate::text::lower(other_type),
        crate::text::lower(user) == crate::text::lower(other_user),
    ensures
        kept(branch, login, actor_type, default_branch, user) == kept(
            branch,
            other_login,
            other_type,
            default_branch,
            other_user,
        ),
{
}

} // verus!
