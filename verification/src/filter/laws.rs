//! Which runs are kept, said of the run itself.
use vstd::prelude::*;

verus! {

/// Two texts are the same but for the case of ASCII letters: as long, and letter by letter equal or
/// a capital and its small letter.
pub open spec fn same_but_for_case(a: Seq<char>, b: Seq<char>) -> bool {
    &&& a.len() == b.len()
    &&& forall|i: int|
        0 <= i < a.len() ==> ((#[trigger] a[i]) == b[i] || (65 <= a[i] as int <= 90 && b[i] as int
            == a[i] as int + 32) || (65 <= b[i] as int <= 90 && a[i] as int == b[i] as int + 32))
}

/// The type of an actor says that it is a bot: it is the three letters `bot`, in any case.
pub open spec fn typed_as_bot(actor_type: Seq<char>) -> bool {
    same_but_for_case(actor_type, seq!['b', 'o', 't'])
}

/// The login of an actor says that it is a bot: its last five characters are `[bot]`, in any case.
pub open spec fn named_as_bot(actor_login: Seq<char>) -> bool {
    actor_login.len() >= 5 && same_but_for_case(
        actor_login.subrange(actor_login.len() - 5, actor_login.len() as int),
        seq!['[', 'b', 'o', 't', ']'],
    )
}

proof fn lemma_case(a: Seq<char>, b: Seq<char>)
    ensures
        crate::text::lower(a) == crate::text::lower(b) <==> same_but_for_case(a, b),
{
    crate::text::laws::texts_that_differ_in_case_alone(a, b);
    if same_but_for_case(a, b) {
        assert forall|i: int| 0 <= i < a.len() implies crate::text::laws::same_letter(
            #[trigger] a[i],
            b[i],
        ) by {}
    }
    if crate::text::lower(a) == crate::text::lower(b) {
        assert forall|i: int| 0 <= i < a.len() implies ((#[trigger] a[i]) == b[i] || (65
            <= a[i] as int <= 90 && b[i] as int == a[i] as int + 32) || (65 <= b[i] as int <= 90
            && a[i] as int == b[i] as int + 32)) by {
            assert(crate::text::laws::same_letter(a[i], b[i]));
        }
    }
}

/// An actor is a bot exactly when its type or the end of its login says so.
pub proof fn a_bot_is_told_by_its_type_or_login(actor_login: Seq<char>, actor_type: Seq<char>)
    ensures
        super::bot(actor_login, actor_type) <==> typed_as_bot(actor_type) || named_as_bot(
            actor_login,
        ),
{
    reveal_strlit("bot");
    reveal_strlit("[bot]");
    assert("bot"@ =~= seq!['b', 'o', 't']);
    let end = seq!['[', 'b', 'o', 't', ']'];
    assert("[bot]"@ =~= end);
    lemma_case(actor_type, "bot"@);
    let low = crate::text::lower(actor_login);
    assert(low.len() == actor_login.len());
    if actor_login.len() >= 5 {
        let tail = actor_login.subrange(actor_login.len() - 5, actor_login.len() as int);
        let low_tail = low.subrange(low.len() - 5, low.len() as int);
        lemma_case(tail, end);
        assert(crate::text::lower(tail) =~= low_tail);
        assert(crate::text::lower(end) =~= end) by {
            assert forall|i: int| 0 <= i < 5 implies crate::text::ascii_lower(#[trigger] end[i])
                == end[i] by {
                crate::text::laws::folding_changes_capital_letters_only(end[i]);
            }
        }
        if end.is_suffix_of(low) {
            assert(low_tail =~= end);
        }
        if low_tail == end {
            assert(end.is_suffix_of(low));
        }
    }
}

/// The user's own run is kept on every branch, whatever the branch is called.
pub proof fn own_runs_are_kept_on_every_branch(
    branch: Seq<char>,
    actor_login: Seq<char>,
    actor_type: Seq<char>,
    default_branch: Seq<char>,
    current_user: Seq<char>,
)
    requires
        !typed_as_bot(actor_type),
        !named_as_bot(actor_login),
        same_but_for_case(actor_login, current_user),
    ensures
        super::kept(branch, actor_login, actor_type, default_branch, current_user),
{
    a_bot_is_told_by_its_type_or_login(actor_login, actor_type);
    lemma_case(actor_login, current_user);
}

/// A run on the default branch is kept whoever started it, but for a bot.
pub proof fn runs_on_the_default_branch_are_kept(
    actor_login: Seq<char>,
    actor_type: Seq<char>,
    default_branch: Seq<char>,
    current_user: Seq<char>,
)
    requires
        !typed_as_bot(actor_type),
        !named_as_bot(actor_login),
    ensures
        super::kept(default_branch, actor_login, actor_type, default_branch, current_user),
{
    a_bot_is_told_by_its_type_or_login(actor_login, actor_type);
}

/// No other run is kept: neither that of a bot, nor that of another login on another branch.
pub proof fn other_runs_are_dropped(
    branch: Seq<char>,
    actor_login: Seq<char>,
    actor_type: Seq<char>,
    default_branch: Seq<char>,
    current_user: Seq<char>,
)
    requires
        typed_as_bot(actor_type) || named_as_bot(actor_login) || (branch != default_branch
            && !same_but_for_case(actor_login, current_user)),
    ensures
        !super::kept(branch, actor_login, actor_type, default_branch, current_user),
{
    a_bot_is_told_by_its_type_or_login(actor_login, actor_type);
    lemma_case(actor_login, current_user);
}

} // verus!
