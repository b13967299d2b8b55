//! What the operations on texts are for, said of the characters themselves.
use vstd::prelude::*;

verus! {

/// Two texts differ first at place `k`: what comes before is the same in both, and there the one
/// has ended or has the smaller character.
pub open spec fn smaller_at(a: Seq<char>, b: Seq<char>, k: int) -> bool {
    &&& 0 <= k <= a.len()
    &&& k < b.len()
    &&& forall|i: int| 0 <= i < k ==> #[trigger] a[i] == b[i]
    &&& k == a.len() || (a[k] as int) < (b[k] as int)
}

/// Texts are ordered by the first place where they differ.
pub proof fn texts_are_ordered_by_their_first_difference(a: Seq<char>, b: Seq<char>)
    ensures
        super::text_lt(a, b) <==> (exists|k: int| #[trigger] smaller_at(a, b, k)),
    decreases a.len(),
{
    if b.len() == 0 {
    } else if a.len() == 0 {
        assert(smaller_at(a, b, 0));
    } else if a[0] != b[0] {
        if super::text_lt(a, b) {
            assert(smaller_at(a, b, 0));
        }
        if exists|k: int| #[trigger] smaller_at(a, b, k) {
            let k = choose|k: int| #[trigger] smaller_at(a, b, k);
            assert(k == 0);
        }
    } else {
        let x = a.drop_first();
        let y = b.drop_first();
        texts_are_ordered_by_their_first_difference(x, y);
        if super::text_lt(a, b) {
            let k = choose|k: int| #[trigger] smaller_at(x, y, k);
            assert forall|i: int| 0 <= i < k + 1 implies #[trigger] a[i] == b[i] by {
                if i > 0 {
                    assert(x[i - 1] == y[i - 1]);
                }
            }
            assert(smaller_at(a, b, k + 1));
        }
        if exists|k: int| #[trigger] smaller_at(a, b, k) {
            let k = choose|k: int| #[trigger] smaller_at(a, b, k);
            assert(k > 0);
            assert forall|i: int| 0 <= i < k - 1 implies #[trigger] x[i] == y[i] by {
                assert(a[i + 1] == b[i + 1]);
            }
            assert(smaller_at(x, y, k - 1));
        }
    }
}

/// Folding changes the twenty-six capital letters to the small letters that stand thirty-two places
/// behind them, and no other character.
pub proof fn folding_changes_capital_letters_only(c: char)
    ensures
        65 <= c as int <= 90 ==> super::ascii_lower(c) as int == c as int + 32,
        !(65 <= c as int <= 90) ==> super::ascii_lower(c) == c,
{
}

/// Two characters are the same but for the case of an ASCII letter.
pub open spec fn same_letter(a: char, b: char) -> bool {
    ||| a == b
    ||| 65 <= a as int <= 90 && b as int == a as int + 32
    ||| 65 <= b as int <= 90 && a as int == b as int + 32
}

/// Texts are the same but for case exactly when they are as long and the same letter by letter.
pub proof fn texts_that_differ_in_case_alone(a: Seq<char>, b: Seq<char>)
    ensures
        super::lower(a) == super::lower(b) <==> a.len() == b.len() && (forall|i: int|
            0 <= i < a.len() ==> same_letter(#[trigger] a[i], b[i])),
{
    let x = super::lower(a);
    let y = super::lower(b);
    if x == y {
        assert(a.len() == x.len() && b.len() == y.len());
        assert forall|i: int| 0 <= i < a.len() implies same_letter(#[trigger] a[i], b[i]) by {
            assert(x[i] == y[i]);
            folding_changes_capital_letters_only(a[i]);
            folding_changes_capital_letters_only(b[i]);
            lemma_same_code(a[i], b[i]);
        }
    }
    if a.len() == b.len() && (forall|i: int| 0 <= i < a.len() ==> same_letter(#[trigger] a[i], b[i])) {
        assert forall|i: int| 0 <= i < x.len() implies x[i] == y[i] by {
            assert(same_letter(a[i], b[i]));
            folding_changes_capital_letters_only(a[i]);
            folding_changes_capital_letters_only(b[i]);
            lemma_same_code(x[i], y[i]);
        }
        assert(x =~= y);
    }
}

proof fn lemma_same_code(a: char, b: char)
    ensures
        a as int == b as int ==> a == b,
{
}

/// The text ends with `suffix`, but for the case of ASCII letters in the text: place by place, what
/// stands there folds to what the suffix has.
pub proof fn an_end_is_found_in_any_case(s: Seq<char>, suffix: Seq<char>)
    ensures
        suffix.is_suffix_of(super::lower(s)) <==> suffix.len() <= s.len() && (forall|i: int|
            0 <= i < suffix.len() ==> super::ascii_lower(s[s.len() - suffix.len() + i])
                == #[trigger] suffix[i]),
{
    let x = super::lower(s);
    assert(x.len() == s.len());
    if suffix.len() <= s.len() {
        let end = x.subrange(x.len() - suffix.len(), x.len() as int);
        if suffix.is_suffix_of(x) {
            assert forall|i: int| 0 <= i < suffix.len() implies super::ascii_lower(
                s[s.len() - suffix.len() + i],
            ) == #[trigger] suffix[i] by {
                assert(end[i] == suffix[i]);
            }
        }
        if forall|i: int|
            0 <= i < suffix.len() ==> super::ascii_lower(s[s.len() - suffix.len() + i])
                == #[trigger] suffix[i] {
            assert(end =~= suffix);
        }
    }
}

/// `c` is no visible character: tab to carriage return, space, next line, and the spaces and
/// separators of other scripts.
pub open spec fn is_blank(c: char) -> bool {
    let n = c as int;
    ||| n == 9 || n == 10 || n == 11 || n == 12 || n == 13 || n == 32 || n == 133 || n == 160
    ||| n == 5760 || n == 8232 || n == 8233 || n == 8239 || n == 8287 || n == 12288
    ||| 8192 <= n <= 8202
}

/// The white space is the twenty-five blank characters.
pub proof fn white_space_is_what_is_blank(c: char)
    ensures
        super::white_space(c) == is_blank(c),
{
}

/// `t` is what stands in `s` from place `from` up to place `to`, all around it is blank, and it
/// neither begins nor ends with a blank.
pub open spec fn is_core(s: Seq<char>, from: int, to: int, t: Seq<char>) -> bool {
    &&& 0 <= from <= to <= s.len()
    &&& t == s.subrange(from, to)
    &&& forall|i: int| 0 <= i < from ==> is_blank(#[trigger] s[i])
    &&& forall|i: int| to <= i < s.len() ==> is_blank(#[trigger] s[i])
    &&& t.len() > 0 ==> !is_blank(t.first()) && !is_blank(t.last())
}

/// `t` is `s` without the blanks around it.
pub open spec fn is_core_of(s: Seq<char>, t: Seq<char>) -> bool {
    exists|from: int, to: int| #[trigger] is_core(s, from, to, t)
}

proof fn lemma_start(s: Seq<char>) -> (from: int)
    ensures
        0 <= from <= s.len(),
        super::trimmed_start(s) == s.subrange(from, s.len() as int),
        forall|i: int| 0 <= i < from ==> super::white_space(#[trigger] s[i]),
    decreases s.len(),
{
    if s.len() > 0 && super::white_space(s.first()) {
        let rest = s.drop_first();
        let k = lemma_start(rest);
        assert(rest.subrange(k, rest.len() as int) =~= s.subrange(k + 1, s.len() as int));
        assert forall|i: int| 0 <= i < k + 1 implies super::white_space(#[trigger] s[i]) by {
            if i > 0 {
                assert(rest[i - 1] == s[i]);
            }
        }
        k + 1
    } else {
        assert(s.subrange(0, s.len() as int) =~= s);
        0
    }
}

proof fn lemma_end(s: Seq<char>) -> (to: int)
    ensures
        0 <= to <= s.len(),
        super::trimmed_end(s) == s.subrange(0, to),
        forall|i: int| to <= i < s.len() ==> super::white_space(#[trigger] s[i]),
    decreases s.len(),
{
    if s.len() > 0 && super::white_space(s.last()) {
        let rest = s.drop_last();
        let k = lemma_end(rest);
        assert(rest.subrange(0, k) =~= s.subrange(0, k));
        assert forall|i: int| k <= i < s.len() implies super::white_space(#[trigger] s[i]) by {
            if i < s.len() - 1 {
                assert(rest[i] == s[i]);
            }
        }
        k
    } else {
        assert(s.subrange(0, s.len() as int) =~= s);
        s.len() as int
    }
}

/// Trimming takes away the blanks around a text and nothing else.
pub proof fn trimming_takes_the_blanks_around(s: Seq<char>)
    ensures
        is_core_of(s, super::trimmed(s)),
{
    let from = lemma_start(s);
    let x = super::trimmed_start(s);
    let k = lemma_end(x);
    let t = super::trimmed(s);
    assert(x.subrange(0, k) =~= s.subrange(from, from + k));
    super::lemma_trimmed_ends(s);
    assert forall|i: int| 0 <= i < from implies is_blank(#[trigger] s[i]) by {
        white_space_is_what_is_blank(s[i]);
    }
    assert forall|i: int| from + k <= i < s.len() implies is_blank(#[trigger] s[i]) by {
        white_space_is_what_is_blank(s[i]);
        assert(x[i - from] == s[i]);
    }
    if t.len() > 0 {
        white_space_is_what_is_blank(t.first());
        white_space_is_what_is_blank(t.last());
    }
    assert(is_core(s, from, from + k, t));
}

/// A text that is trimmed to nothing is all blank, and the other way round.
pub proof fn only_blanks_are_trimmed_to_nothing(s: Seq<char>)
    ensures
        super::trimmed(s).len() == 0 <==> (forall|i: int| 0 <= i < s.len() ==> is_blank(#[trigger] s[i])),
{
    trimming_takes_the_blanks_around(s);
    let t = super::trimmed(s);
    let (from, to) = choose|from: int, to: int| #[trigger] is_core(s, from, to, t);
    if t.len() > 0 {
        assert(t.first() == s[from]);
    } else {
        assert(from == to);
    }
}

/// The first line holds no line feed and is where the text begins. It is the whole text where that
/// has no line feed; else a line feed, or a carriage return and a line feed, comes right behind it,
/// and a line feed alone never behind a carriage return.
pub proof fn the_first_line_ends_at_the_first_line_feed(s: Seq<char>)
    ensures
        ({
            let line = super::first_line(s);
            let n = line.len() as int;
            &&& n <= s.len()
            &&& line == s.take(n)
            &&& forall|i: int| 0 <= i < n ==> #[trigger] s[i] != '\n'
            &&& {
                ||| n == s.len()
                ||| s[n] == '\n' && (n == 0 || s[n - 1] != '\r')
                ||| n + 1 < s.len() && s[n] == '\r' && s[n + 1] == '\n'
            }
        }),
{
    s.index_of_first_ensures('\n');
    let line = super::first_line(s);
    assert(line =~= s.take(line.len() as int));
}

/// What is left of a text without the slashes at its end does not end with a slash, and all that is
/// gone is slashes.
pub proof fn only_trailing_slashes_go(s: Seq<char>)
    ensures
        ({
            let t = super::without_trailing_slashes(s);
            &&& t.len() <= s.len()
            &&& t == s.take(t.len() as int)
            &&& t.len() > 0 ==> t.last() != '/'
            &&& forall|i: int| t.len() <= i < s.len() ==> #[trigger] s[i] == '/'
        }),
    decreases s.len(),
{
    let t = super::without_trailing_slashes(s);
    if s.len() > 0 && s.last() == '/' {
        let rest = s.drop_last();
        only_trailing_slashes_go(rest);
        assert(rest.take(t.len() as int) =~= s.take(t.len() as int));
        assert forall|i: int| t.len() <= i < s.len() implies #[trigger] s[i] == '/' by {
            if i < s.len() - 1 {
                assert(rest[i] == s[i]);
            }
        }
    } else {
        assert(s.take(s.len() as int) =~= s);
    }
}

/// The digits of a number stand for that number, in tens: they are digits, there is at least one,
/// none is a needless zero in front, and reading them from the left gives the number back.
pub proof fn decimal_digits_are_read_back(n: nat)
    ensures
        ({
            let s = super::decimal(n);
            &&& s.len() > 0
            &&& forall|i: int| 0 <= i < s.len() ==> 48 <= #[trigger] s[i] as int <= 57
            &&& s.len() > 1 ==> s[0] != '0'
            &&& super::digits_value(s) == n
        }),
    decreases n,
{
    let s = super::decimal(n);
    if n < 10 {
        assert(s.drop_last() =~= Seq::<char>::empty());
        assert(super::digits_value(Seq::<char>::empty()) == 0);
        assert(super::digits_value(s) == 10 * super::digits_value(s.drop_last()) + n);
    } else {
        let front = super::decimal(n / 10);
        decimal_digits_are_read_back(n / 10);
        assert(s.drop_last() =~= front);
        assert(s.last() as int == 48 + n % 10);
        assert(s[0] == front[0]);
        if front.len() == 1 {
            assert(n / 10 < 10) by {
                if n / 10 >= 10 {
                    assert(super::decimal(n / 10).len() == super::decimal(n / 10 / 10).len() + 1);
                    decimal_digits_are_read_back(n / 10 / 10);
                }
            }
            assert(front[0] as int == 48 + n / 10);
        }
        assert(super::digits_value(s) == 10 * super::digits_value(front) + n % 10);
    }
}

/// Each digit counts ten times as much as the one behind it.
pub proof fn digits_count_in_tens(s: Seq<char>, c: char)
    requires
        48 <= c as int <= 57,
    ensures
        super::digits_value(Seq::empty()) == 0,
        super::digits_value(s.push(c)) == 10 * super::digits_value(s) + (c as int - 48),
{
    assert(s.push(c).drop_last() =~= s);
}

/// Reading a written number gives it back, with its sign.
pub proof fn written_numbers_are_read_back(n: i64)
    ensures
        super::parsed_i64(super::signed_decimal(n as int)) == Some(n as int),
{
    let m = if n < 0 {
        -(n as int)
    } else {
        n as int
    };
    let digits = super::decimal(m as nat);
    decimal_digits_are_read_back(m as nat);
    let s = super::signed_decimal(n as int);
    if n < 0 {
        assert(s[0] == '-');
        assert(s.drop_first() =~= digits);
    } else {
        assert(48 <= s[0] as int <= 57);
    }
}

/// There is a character, and every character is one of the ten digits.
pub open spec fn is_all_digits(s: Seq<char>) -> bool {
    s.len() > 0 && forall|i: int| 0 <= i < s.len() ==> 48 <= (#[trigger] s[i]) as int <= 57
}

/// A text is read as a number exactly when it is digits, with a sign in front or not, and the
/// number fits; a minus sign makes the number negative.
pub proof fn a_number_is_a_sign_and_digits(digits: Seq<char>)
    requires
        is_all_digits(digits),
    ensures
        ({
            let n = super::digits_value(digits) as int;
            let plain = if n <= 0x7fff_ffff_ffff_ffff {
                Some(n)
            } else {
                None
            };
            let negative = if n <= 0x8000_0000_0000_0000 {
                Some(-n)
            } else {
                None
            };
            &&& super::parsed_i64(digits) == plain
            &&& super::parsed_i64(seq!['+'] + digits) == plain
            &&& super::parsed_i64(seq!['-'] + digits) == negative
        }),
{
    assert forall|i: int| 0 <= i < digits.len() implies super::is_digit(#[trigger] digits[i]) by {
        assert(48 <= digits[i] as int <= 57);
    }
    assert(48 <= digits[0] as int <= 57);
    assert((seq!['+'] + digits).drop_first() =~= digits);
    assert((seq!['-'] + digits).drop_first() =~= digits);
}

/// What is neither digits nor a sign and digits is no number.
pub proof fn what_is_no_number(s: Seq<char>)
    requires
        !is_all_digits(s),
        s.len() > 0 && (s[0] == '+' || s[0] == '-') ==> !is_all_digits(s.skip(1)),
    ensures
        super::parsed_i64(s) is None,
{
    let digits = super::unsigned_part(s);
    if s.len() > 0 && (s[0] == '+' || s[0] == '-') {
        assert(digits =~= s.skip(1));
    }
    if super::parsed_i64(s) is Some {
        assert forall|i: int| 0 <= i < digits.len() implies 48 <= (#[trigger] digits[i]) as int
            <= 57 by {
            assert(super::is_digit(digits[i]));
        }
        assert(is_all_digits(digits));
    }
}

/// The text of an optional string is there exactly when the string is, and is its text; a list of
/// strings has the texts of its strings, in order.
pub proof fn texts_are_those_of_their_strings(s: Option<String>, t: Option<&str>, list: Seq<String>)
    ensures
        s is Some ==> super::optional_text(s) == Some(s->0@),
        s is None ==> super::optional_text(s) is None,
        t is Some ==> super::optional_str(t) == Some(t->0@),
        t is None ==> super::optional_str(t) is None,
        super::texts(list).len() == list.len(),
        forall|i: int| 0 <= i < list.len() ==> #[trigger] super::texts(list)[i] == list[i]@,
{
}

} // verus!
