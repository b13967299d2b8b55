//! Which token is used, said of the texts that the sources give.
use vstd::prelude::*;

verus! {

/// A source gives nothing that could be a token: it is missing, or all blank.
pub open spec fn gives_nothing(source: Option<Seq<char>>) -> bool {
    source is None || forall|i: int|
        0 <= i < source->0.len() ==> crate::text::laws::is_blank(#[trigger] source->0[i])
}

/// There is no token exactly when neither source gives anything.
pub proof fn a_token_is_found_where_there_is_one(
    gh_output: Option<Seq<char>>,
    env_token: Option<Seq<char>>,
)
    ensures
        super::chosen_token(gh_output, env_token) is None <==> gives_nothing(gh_output)
            && gives_nothing(env_token),
{
    if gh_output is Some {
        crate::text::laws::only_blanks_are_trimmed_to_nothing(gh_output->0);
    }
    if env_token is Some {
        crate::text::laws::only_blanks_are_trimmed_to_nothing(env_token->0);
    }
}

/// The token is what stands between the blanks around the text of its source. That source is `gh`
/// where it gives anything, and the environment only where it does not.
pub proof fn the_token_is_that_of_its_source(
    gh_output: Option<Seq<char>>,
    env_token: Option<Seq<char>>,
)
    requires
        !gives_nothing(gh_output) || !gives_nothing(env_token),
    ensures
        ({
            let source = if gives_nothing(gh_output) {
                env_token->0
            } else {
                gh_output->0
            };
            let token = super::chosen_token(gh_output, env_token);
            &&& token is Some
            &&& token->0.len() > 0
            &&& crate::text::laws::is_core_of(source, token->0)
        }),
{
    a_token_is_found_where_there_is_one(gh_output, env_token);
    if gh_output is Some {
        crate::text::laws::only_blanks_are_trimmed_to_nothing(gh_output->0);
        crate::text::laws::trimming_takes_the_blanks_around(gh_output->0);
    }
    if env_token is Some {
        crate::text::laws::only_blanks_are_trimmed_to_nothing(env_token->0);
        crate::text::laws::trimming_takes_the_blanks_around(env_token->0);
    }
}

} // verus!
