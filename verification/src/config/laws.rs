//! What a configuration says, setting by setting.
use vstd::prelude::*;

use super::{Config, ConfigError, IgnoreError, Setting, SettingView};

verus! {

/// Setting `i` is the last one with its key.
pub open spec fn is_last(settings: Seq<(Seq<char>, SettingView)>, i: int) -> bool {
    &&& 0 <= i < settings.len()
    &&& forall|j: int| i < j < settings.len() ==> (#[trigger] settings[j]).0 != settings[i].0
}

proof fn lemma_lookup(settings: Seq<(Seq<char>, SettingView)>, i: int)
    requires
        is_last(settings, i),
    ensures
        super::lookup(settings, settings[i].0) == Some(settings[i].1),
    decreases settings.len(),
{
    if i < settings.len() - 1 {
        let rest = settings.drop_last();
        assert(settings[settings.len() - 1].0 != settings[i].0);
        assert(is_last(rest, i)) by {
            assert forall|j: int| i < j < rest.len() implies (#[trigger] rest[j]).0 != rest[i].0 by {
                assert(settings[j].0 != settings[i].0);
            }
        }
        lemma_lookup(rest, i);
    }
}

proof fn lemma_lookup_none(settings: Seq<(Seq<char>, SettingView)>, key: Seq<char>)
    requires
        forall|j: int| 0 <= j < settings.len() ==> (#[trigger] settings[j]).0 != key,
    ensures
        super::lookup(settings, key) is None,
    decreases settings.len(),
{
    if settings.len() > 0 {
        let rest = settings.drop_last();
        assert(settings[settings.len() - 1].0 != key);
        assert forall|j: int| 0 <= j < rest.len() implies (#[trigger] rest[j]).0 != key by {
            assert(settings[j].0 != key);
        }
        lemma_lookup_none(rest, key);
    }
}

/// A configuration that is accepted has what its settings say: the number of the poll interval,
/// which is not zero, the flag, and the strings of the list in their order.
pub proof fn a_configuration_has_what_its_settings_say(
    settings: Seq<(Seq<char>, SettingView)>,
    c: Config,
    i: int,
)
    requires
        super::from_settings_post(settings, Ok(c)),
        is_last(settings, i),
    ensures
        c.poll_interval_secs > 0,
        settings[i].0 == "poll_interval_secs"@ || settings[i].0 == "include_orgs"@
            || settings[i].0 == "ignore"@,
        settings[i].0 == "poll_interval_secs"@ ==> settings[i].1.integer is Some
            && c.poll_interval_secs == settings[i].1.integer->0,
        settings[i].0 == "include_orgs"@ ==> settings[i].1.boolean == Some(c.include_orgs),
        settings[i].0 == "ignore"@ ==> settings[i].1.list is Some && c.ignore@.len()
            == settings[i].1.list->0.len() && (forall|j: int|
            0 <= j < c.ignore@.len() ==> settings[i].1.list->0[j] == Some(
                (#[trigger] c.ignore@[j])@,
            )),
{
    super::lemma_keys_differ();
    lemma_lookup(settings, i);
    assert(super::is_known_key(settings[i].0) && super::fits(settings[i].0, settings[i].1));
    if settings[i].0 == "ignore"@ {
        let list = settings[i].1.list->0;
        let texts = list.map_values(|t: Option<Seq<char>>| t->0);
        assert(c@.ignore == texts);
        assert(c@.ignore.len() == c.ignore@.len());
        assert forall|j: int| 0 <= j < c.ignore@.len() implies list[j] == Some(
            (#[trigger] c.ignore@[j])@,
        ) by {
            assert(c@.ignore[j] == c.ignore@[j]@);
            assert(texts[j] == list[j]->0);
            assert(list[j] is Some);
        }
    }
}

/// What is not set is three minutes, repositories of organizations too, and nothing to ignore.
pub proof fn what_is_not_set_has_its_default(settings: Seq<(Seq<char>, SettingView)>, c: Config)
    requires
        super::from_settings_post(settings, Ok(c)),
    ensures
        (forall|j: int|
            0 <= j < settings.len() ==> (#[trigger] settings[j]).0 != "poll_interval_secs"@)
            ==> c.poll_interval_secs == 180,
        (forall|j: int| 0 <= j < settings.len() ==> (#[trigger] settings[j]).0 != "include_orgs"@)
            ==> c.include_orgs,
        (forall|j: int| 0 <= j < settings.len() ==> (#[trigger] settings[j]).0 != "ignore"@)
            ==> c.ignore@.len() == 0,
{
    if forall|j: int| 0 <= j < settings.len() ==> (#[trigger] settings[j]).0 != "poll_interval_secs"@ {
        lemma_lookup_none(settings, "poll_interval_secs"@);
    }
    if forall|j: int| 0 <= j < settings.len() ==> (#[trigger] settings[j]).0 != "include_orgs"@ {
        lemma_lookup_none(settings, "include_orgs"@);
    }
    if forall|j: int| 0 <= j < settings.len() ==> (#[trigger] settings[j]).0 != "ignore"@ {
        lemma_lookup_none(settings, "ignore"@);
        assert(c@.ignore.len() == c.ignore@.len());
    }
}

/// A value is of the type of its key: a number that is not negative, a flag, or a list of strings.
pub open spec fn is_right_value(key: Seq<char>, s: SettingView) -> bool {
    ||| key == "poll_interval_secs"@ && s.integer is Some && s.integer->0 >= 0
    ||| key == "include_orgs"@ && s.boolean is Some
    ||| key == "ignore"@ && s.list is Some && forall|j: int|
        0 <= j < s.list->0.len() ==> (#[trigger] s.list->0[j]) is Some
}

/// Every setting is one of the three, with a value of its type.
pub open spec fn all_right(settings: Seq<(Seq<char>, SettingView)>) -> bool {
    forall|i: int|
        #![trigger settings[i]]
        0 <= i < settings.len() ==> is_right_value(settings[i].0, settings[i].1)
}

proof fn lemma_right(key: Seq<char>, s: SettingView)
    ensures
        is_right_value(key, s) <==> super::is_known_key(key) && super::fits(key, s),
{
    super::lemma_keys_differ();
}

/// Settings are accepted exactly when each is one of the three with a value of its type and the
/// poll interval is not set to zero. An unknown key is none of the three; a wrong value stands at a
/// key that is.
pub proof fn which_settings_are_accepted(
    settings: Seq<(Seq<char>, SettingView)>,
    r: Result<Config, ConfigError>,
)
    requires
        super::from_settings_post(settings, r),
    ensures
        r is Ok ==> all_right(settings),
        r is Err && all_right(settings) ==> r->Err_0 is ZeroPollInterval && (exists|i: int|
            0 <= i < settings.len() && (#[trigger] settings[i]).0 == "poll_interval_secs"@
                && settings[i].1.integer == Some(0i64)),
        r matches Err(ConfigError::UnknownKey(key)) ==> key@ != "poll_interval_secs"@ && key@
            != "include_orgs"@ && key@ != "ignore"@ && (exists|i: int|
            0 <= i < settings.len() && (#[trigger] settings[i]).0 == key@),
        r matches Err(ConfigError::WrongValue(key)) ==> (key@ == "poll_interval_secs"@ || key@
            == "include_orgs"@ || key@ == "ignore"@) && (exists|i: int|
            0 <= i < settings.len() && (#[trigger] settings[i]).0 == key@ && !is_right_value(
                key@,
                settings[i].1,
            )),
        !(r matches Err(ConfigError::Syntax(_))),
{
    super::lemma_keys_differ();
    if r is Ok {
        assert forall|i: int|
            #![trigger settings[i]]
            0 <= i < settings.len() implies is_right_value(settings[i].0, settings[i].1) by {
            lemma_right(settings[i].0, settings[i].1);
        }
    } else {
        match r->Err_0 {
            ConfigError::UnknownKey(key) => {
                let k = choose|k: int|
                    #[trigger] super::is_first_fault(settings, k) && !super::is_known_key(
                        settings[k].0,
                    ) && settings[k].0 == key@;
                lemma_right(settings[k].0, settings[k].1);
                assert(settings[k].0 == key@);
            },
            ConfigError::WrongValue(key) => {
                let k = choose|k: int|
                    #[trigger] super::is_first_fault(settings, k) && super::is_known_key(
                        settings[k].0,
                    ) && settings[k].0 == key@;
                lemma_right(settings[k].0, settings[k].1);
                assert(settings[k].0 == key@);
            },
            ConfigError::ZeroPollInterval => {
                let key = "poll_interval_secs"@;
                if forall|j: int| 0 <= j < settings.len() ==> (#[trigger] settings[j]).0 != key {
                    lemma_lookup_none(settings, key);
                } else {
                    let i = lemma_some_last(settings, key);
                    lemma_lookup(settings, i);
                    assert(super::is_known_key(settings[i].0) && super::fits(
                        settings[i].0,
                        settings[i].1,
                    ));
                    let n = settings[i].1.integer->0;
                    assert(n >= 0 && n as u64 == 0);
                    assert(settings[i].0 == key && settings[i].1.integer == Some(0i64));
                }
            },
            ConfigError::Syntax(_) => {},
        }
    }
}

proof fn lemma_some_last(settings: Seq<(Seq<char>, SettingView)>, key: Seq<char>) -> (i: int)
    requires
        exists|j: int| 0 <= j < settings.len() && (#[trigger] settings[j]).0 == key,
    ensures
        is_last(settings, i),
        settings[i].0 == key,
    decreases settings.len(),
{
    let last = settings.len() - 1;
    if settings[last].0 == key {
        last
    } else {
        let rest = settings.drop_last();
        let j = choose|j: int| 0 <= j < settings.len() && (#[trigger] settings[j]).0 == key;
        assert(rest[j].0 == key);
        let i = lemma_some_last(rest, key);
        assert forall|k: int| i < k < settings.len() implies (#[trigger] settings[k]).0
            != settings[i].0 by {
            if k < last {
                assert(rest[k].0 != rest[i].0);
            }
        }
        i
    }
}

/// The form of a configuration and of a setting holds each of its fields as it is.
pub proof fn forms_hold_every_field(c: Config, s: Setting, all: Seq<(String, Setting)>)
    ensures
        c@.poll_interval_secs == c.poll_interval_secs,
        c@.include_orgs == c.include_orgs,
        c@.ignore.len() == c.ignore@.len(),
        forall|i: int| 0 <= i < c.ignore@.len() ==> #[trigger] c@.ignore[i] == c.ignore@[i]@,
        s@.integer == s.integer,
        s@.boolean == s.boolean,
        s@.list is Some == s.list is Some,
        s.list is Some ==> s@.list->0.len() == s.list->0@.len() && (forall|i: int|
            0 <= i < s.list->0@.len() ==> (#[trigger] s@.list->0[i]) == (match s.list->0@[i] {
                Some(t) => Some(t@),
                None => None,
            })),
        super::settings_view(all).len() == all.len(),
        forall|i: int|
            0 <= i < all.len() ==> #[trigger] super::settings_view(all)[i] == (all[i].0@, all[i].1@),
{
}

/// A name is ignored exactly when one of the patterns matches it as a glob whose wildcards do not
/// match a slash.
pub proof fn a_name_is_ignored_where_a_pattern_matches(ignore: Seq<Seq<char>>, name: Seq<char>)
    ensures
        super::is_glob_ignored(ignore, name) <==> (exists|i: int|
            0 <= i < ignore.len() && crate::globs::glob_matches(#[trigger] ignore[i], true, name)),
        crate::globs::some_match(super::with_separator(ignore), name) <==> (exists|i: int|
            0 <= i < ignore.len() && crate::globs::glob_matches(#[trigger] ignore[i], true, name)),
{
    super::matcher_follows_the_globs(ignore, name);
}

/// Patterns can be used exactly when each is a glob whose wildcards do not match a slash, and they
/// fit into one set. The first that is no glob is the one that is named.
pub proof fn patterns_are_used_where_each_is_a_glob(ignore: Seq<Seq<char>>, e: IgnoreError)
    ensures
        super::usable(ignore) <==> (forall|i: int|
            0 <= i < ignore.len() ==> crate::globs::is_glob(#[trigger] ignore[i], true))
            && crate::globs::globs_compile(ignore.map_values(|p: Seq<char>| (p, true))),
        super::is_ignore_error(ignore, e) ==> (e matches IgnoreError::Invalid { pattern, .. }
            ==> exists|k: int|
            0 <= k < ignore.len() && (#[trigger] ignore[k]) == pattern@ && !crate::globs::is_glob(
                ignore[k],
                true,
            ) && forall|j: int|
                0 <= j < k ==> crate::globs::is_glob(#[trigger] ignore[j], true)),
        super::is_ignore_error(ignore, e) && e is Build ==> (forall|i: int|
            0 <= i < ignore.len() ==> crate::globs::is_glob(#[trigger] ignore[i], true)),
{
    assert(super::with_separator(ignore) =~= ignore.map_values(|p: Seq<char>| (p, true)));
    if super::is_ignore_error(ignore, e) {
        if let IgnoreError::Invalid { pattern, .. } = e {
            let k = choose|k: int|
                #![trigger ignore[k]]
                0 <= k < ignore.len() && super::all_globs(ignore.take(k))
                    && !crate::globs::is_glob(ignore[k], super::LITERAL_SEPARATOR) && pattern@
                    == ignore[k];
            assert forall|j: int| 0 <= j < k implies crate::globs::is_glob(
                #[trigger] ignore[j],
                true,
            ) by {
                assert(ignore.take(k)[j] == ignore[j]);
            }
        }
    }
}

/// What the user is told of a configuration that is not accepted.
pub proof fn what_is_said_of_a_configuration(e: ConfigError, i: IgnoreError)
    ensures
        e is ZeroPollInterval ==> e.message_text() == "poll_interval_secs must be greater than 0"@,
        !(e is ZeroPollInterval) ==> e.message_text() == "failed to parse config file"@,
        i matches IgnoreError::Invalid { pattern, .. } ==> i.message_text()
            == "invalid ignore glob: "@ + pattern@,
        i is Build ==> i.message_text() == "failed to build ignore matcher"@,
{
}

} // verus!
