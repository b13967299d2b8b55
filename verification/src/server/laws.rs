//! What an override is answered and what it leaves, said of the value that is sent.
use vstd::prelude::*;

use crate::clock::Timestamp;
use crate::inclusion::Override;

verus! {

/// A value is understood where it is missing or empty, which asks for no override, or one of the
/// two words, which asks for that one; any other is not.
pub proof fn which_values_are_understood(value: Option<Seq<char>>)
    ensures
        super::understood(value) <==> value is None || value == Some(""@) || value == Some(
            "include"@,
        ) || value == Some("exclude"@),
        value is None || value == Some(""@) ==> super::requested(value) is None,
        value == Some("include"@) ==> super::requested(value) == Some(Override::Include),
        value == Some("exclude"@) ==> super::requested(value) == Some(Override::Exclude),
{
    reveal_strlit("");
    reveal_strlit("include");
    reveal_strlit("exclude");
    assert(""@.len() == 0 && "include"@.len() == 7 && "exclude"@.len() == 7);
    if value is Some {
        crate::inclusion::laws::overrides_are_two_words(value->0);
    }
    crate::inclusion::laws::overrides_are_two_words("include"@);
    crate::inclusion::laws::overrides_are_two_words("exclude"@);
}

/// What is stored for a value is the word itself, and nothing for a value that asks for no
/// override.
pub proof fn the_word_is_stored(value: Option<Seq<char>>)
    requires
        super::understood(value),
    ensures
        value is None || value == Some(""@) ==> super::override_text(super::requested(value)) is None,
        value == Some("include"@) || value == Some("exclude"@) ==> super::override_text(
            super::requested(value),
        ) == value,
{
    which_values_are_understood(value);
}

/// After an override is set, the repository holds it; with `exclude` it is hidden as muted, with
/// `include` it is polled with no reason against it. No other repository and no run changes.
pub proof fn an_override_leaves_its_mark(
    before: crate::store::Tables,
    ignore: Seq<Seq<char>>,
    full_name: Seq<char>,
    value: Option<Seq<char>>,
    now: Timestamp,
    other: Seq<char>,
)
    requires
        before.valid(),
        before.repos.dom().contains(full_name),
        super::understood(value),
        other != full_name,
    ensures
        ({
            let set = before.with_override(
                full_name,
                super::override_text(super::requested(value)),
            );
            let after = crate::sync::decided(
                set,
                full_name,
                crate::sync::decision_on(set, ignore, full_name, now),
            );
            let row = after.repos[full_name];
            &&& value == Some("exclude"@) ==> row.user_override == Some("exclude"@) && row.ignored
                && row.skip_reason == Some("muted"@)
            &&& value == Some("include"@) ==> row.user_override == Some("include"@) && !row.ignored
                && row.skip_reason is None
            &&& value is None || value == Some(""@) ==> row.user_override is None
            &&& row.default_branch == before.repos[full_name].default_branch
            &&& row.etag == before.repos[full_name].etag
            &&& row.archived == before.repos[full_name].archived
            &&& row.pushed_at == before.repos[full_name].pushed_at
            &&& after.runs == before.runs
            &&& after.repos.dom().contains(other) <==> before.repos.dom().contains(other)
            &&& before.repos.dom().contains(other) ==> after.repos[other] == before.repos[other]
        }),
{
    which_values_are_understood(value);
    the_word_is_stored(value);
    let set = before.with_override(full_name, super::override_text(super::requested(value)));
    crate::store::laws::operations_keep_tables_valid(
        before,
        full_name,
        full_name,
        set.repos[full_name],
        arbitrary(),
        full_name,
    );
    assert(set == before.with_row(full_name, set.repos[full_name]));
    crate::sync::effects::what_decides_first(set, ignore, full_name, now);
    crate::sync::effects::a_decision_is_written_as_it_is(
        set,
        full_name,
        crate::sync::decision_on(set, ignore, full_name, now),
    );
}

/// The statuses are those of HTTP, and a strip holds ten runs.
pub proof fn statuses_and_limits()
    ensures
        super::BAD_REQUEST == 400,
        super::NOT_FOUND == 404,
        super::INTERNAL_SERVER_ERROR == 500,
        super::HISTORY_PER_WORKFLOW == 10,
{
}

} // verus!
