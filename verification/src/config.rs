//! The configuration file, and the globs of repositories to ignore.
use vstd::prelude::*;
use vstd::string::*;

use crate::globs::{add_glob, build_set, new_builder, set_matches};
use crate::text::text_eq;

pub mod laws;

verus! {

broadcast use vstd::string::group_string_axioms;

/// What the configuration file holds when it is first written.
pub const DEFAULT_CONFIG: &'static str =
    "# gh-web-dash configuration

# How often to poll GitHub for new workflow runs, in seconds.
poll_interval_secs = 180

# Include repositories from organizations you belong to, not just your own.
include_orgs = true

# Repositories to skip, as globs matched against \"owner/repo\".
ignore = []
";

/// In an `ignore` glob, only a `/` matches the slash between owner and repository.
pub const LITERAL_SEPARATOR: bool = true;

/// The error of toml's parser.
#[verifier::external_type_specification]
#[verifier::external_body]
pub struct ExTomlError(toml::de::Error);

/// The value of one key of a TOML document, as each of the types that a setting can have: `None`
/// where the value is of another type.
#[derive(Debug, Clone)]
pub struct Setting {
    pub integer: Option<i64>,
    pub boolean: Option<bool>,
    /// The items of an array: `None` for an item that is not a string.
    pub list: Option<Vec<Option<String>>>,
}

/// The mathematical form of a [`Setting`].
pub struct SettingView {
    pub integer: Option<i64>,
    pub boolean: Option<bool>,
    pub list: Option<Seq<Option<Seq<char>>>>,
}

impl View for Setting {
    type V = SettingView;

    open spec fn view(&self) -> SettingView {
        SettingView {
            integer: self.integer,
            boolean: self.boolean,
            list: match self.list {
                Some(items) => Some(
                    items@.map_values(|s: Option<String>| crate::text::optional_text(s)),
                ),
                None => None,
            },
        }
    }
}

/// The keys of a list of settings, each with its value.
pub open spec fn settings_view(settings: Seq<(String, Setting)>) -> Seq<(Seq<char>, SettingView)> {
    settings.map_values(|s: (String, Setting)| (s.0@, s.1@))
}

/// The keys of a TOML document, each with its value: what toml's parser reads. `None` where the
/// text is not TOML.
pub uninterp spec fn toml_settings(text: Seq<char>) -> Option<Seq<(Seq<char>, SettingView)>>;

/// Parses the text as a `toml::Table` and lists its keys, each with its value as
/// `toml::Value::as_integer`, `as_bool`, `as_array` and `as_str` give it. The contract claims only
/// that the result is a function of the text.
#[verifier::external_body]
fn read_settings(text: &str) -> (r: Result<Vec<(String, Setting)>, toml::de::Error>)
    ensures
        r is Ok == toml_settings(text@) is Some,
        r is Ok ==> settings_view(r->Ok_0@) == toml_settings(text@)->0,
{
    let table = text.parse::<toml::Table>()?;
    let text_of = |item: &toml::Value| item.as_str().map(str::to_owned);
    let setting = |value: &toml::Value| Setting {
        integer: value.as_integer(),
        boolean: value.as_bool(),
        list: value.as_array().map(|items| items.iter().map(text_of).collect()),
    };
    Ok(table.iter().map(|(key, value)| (key.clone(), setting(value))).collect())
}

/// Why a configuration is not accepted.
#[derive(Debug)]
pub enum ConfigError {
    /// The file is not TOML.
    Syntax(toml::de::Error),
    /// A key is not one of the settings.
    UnknownKey(String),
    /// The value of a key is of the wrong type, or out of range.
    WrongValue(String),
    /// The poll interval is zero.
    ZeroPollInterval,
}

impl ConfigError {
    /// The text of [`ConfigError::message`].
    pub open spec fn message_text(self) -> Seq<char> {
        match self {
            ConfigError::ZeroPollInterval => "poll_interval_secs must be greater than 0"@,
            _ => "failed to parse config file"@,
        }
    }

    /// What to tell the user.
    pub fn message(&self) -> (r: String)
        ensures
            r@ == self.message_text(),
    {
        match self {
            ConfigError::ZeroPollInterval => "poll_interval_secs must be greater than 0".to_owned(),
            _ => "failed to parse config file".to_owned(),
        }
    }
}

/// The settings of the dashboard.
#[derive(Debug, Clone)]
pub struct Config {
    pub poll_interval_secs: u64,
    pub include_orgs: bool,
    pub ignore: Vec<String>,
}

/// The mathematical form of a [`Config`].
pub struct ConfigView {
    pub poll_interval_secs: u64,
    pub include_orgs: bool,
    pub ignore: Seq<Seq<char>>,
}

impl View for Config {
    type V = ConfigView;

    open spec fn view(&self) -> ConfigView {
        ConfigView {
            poll_interval_secs: self.poll_interval_secs,
            include_orgs: self.include_orgs,
            ignore: crate::text::texts(self.ignore@),
        }
    }
}

/// The poll interval of a file that sets none.
pub fn default_poll_interval() -> (r: u64)
    ensures
        r == 180,
{
    180
}

/// Whether the repositories of organizations are watched where the file does not say.
pub fn default_include_orgs() -> (r: bool)
    ensures
        r,
{
    true
}

/// `key` is the name of a setting.
pub open spec fn is_known_key(key: Seq<char>) -> bool {
    key == "poll_interval_secs"@ || key == "include_orgs"@ || key == "ignore"@
}

/// Every item of a list is a string.
pub open spec fn all_strings(items: Seq<Option<Seq<char>>>) -> bool {
    forall|i: int| 0 <= i < items.len() ==> (#[trigger] items[i]) is Some
}

/// The setting `key` can have the value `s`.
pub open spec fn fits(key: Seq<char>, s: SettingView) -> bool {
    if key == "poll_interval_secs"@ {
        s.integer is Some && s.integer->0 >= 0
    } else if key == "include_orgs"@ {
        s.boolean is Some
    } else {
        s.list is Some && all_strings(s.list->0)
    }
}

/// The last value that a list of settings gives to `key`.
pub open spec fn lookup(settings: Seq<(Seq<char>, SettingView)>, key: Seq<char>) -> Option<SettingView>
    decreases settings.len(),
{
    if settings.len() == 0 {
        None
    } else if settings.last().0 == key {
        Some(settings.last().1)
    } else {
        lookup(settings.drop_last(), key)
    }
}

/// Every key is a setting and has a value that fits it.
pub open spec fn well_typed(settings: Seq<(Seq<char>, SettingView)>) -> bool {
    forall|i: int|
        #![trigger settings[i]]
        0 <= i < settings.len() ==> is_known_key(settings[i].0) && fits(settings[i].0, settings[i].1)
}

/// The configuration that a list of settings describes: what is not set has its default.
pub open spec fn configured(settings: Seq<(Seq<char>, SettingView)>) -> ConfigView {
    ConfigView {
        poll_interval_secs: match lookup(settings, "poll_interval_secs"@) {
            Some(s) => s.integer->0 as u64,
            None => 180,
        },
        include_orgs: match lookup(settings, "include_orgs"@) {
            Some(s) => s.boolean->0,
            None => true,
        },
        ignore: match lookup(settings, "ignore"@) {
            Some(s) => s.list->0.map_values(|t: Option<Seq<char>>| t->0),
            None => Seq::empty(),
        },
    }
}

/// `key` is the first key that is no setting or whose value does not fit.
pub open spec fn is_first_fault(settings: Seq<(Seq<char>, SettingView)>, k: int) -> bool {
    &&& 0 <= k < settings.len()
    &&& well_typed(settings.take(k))
    &&& !(is_known_key(settings[k].0) && fits(settings[k].0, settings[k].1))
}

/// What [`Config::from_settings`] returns.
pub open spec fn from_settings_post(
    settings: Seq<(Seq<char>, SettingView)>,
    r: Result<Config, ConfigError>,
) -> bool {
    match r {
        Ok(c) => {
            &&& well_typed(settings)
            &&& c@ == configured(settings)
            &&& c.poll_interval_secs > 0
        },
        Err(ConfigError::UnknownKey(key)) => exists|k: int|
            #[trigger] is_first_fault(settings, k) && !is_known_key(settings[k].0)
                && settings[k].0 == key@,
        Err(ConfigError::WrongValue(key)) => exists|k: int|
            #[trigger] is_first_fault(settings, k) && is_known_key(settings[k].0)
                && settings[k].0 == key@,
        Err(ConfigError::ZeroPollInterval) => well_typed(settings)
            && configured(settings).poll_interval_secs == 0,
        Err(ConfigError::Syntax(_)) => false,
    }
}

proof fn lemma_keys_differ()
    ensures
        "poll_interval_secs"@ != "include_orgs"@,
        "poll_interval_secs"@ != "ignore"@,
        "include_orgs"@ != "ignore"@,
{
    reveal_strlit("poll_interval_secs");
    reveal_strlit("include_orgs");
    reveal_strlit("ignore");
    assert("poll_interval_secs"@.len() == 18);
    assert("include_orgs"@.len() == 12);
    assert("ignore"@.len() == 6);
}

/// The items of a list, where every one of them is a string.
fn strings_of(items: &Vec<Option<String>>) -> (r: Option<Vec<String>>)
    ensures
        ({
            let view = items@.map_values(|s: Option<String>| crate::text::optional_text(s));
            &&& r is Some == all_strings(view)
            &&& r is Some ==> crate::text::texts(r->0@) == view.map_values(
                |t: Option<Seq<char>>| t->0,
            )
        }),
{
    let ghost view = items@.map_values(|s: Option<String>| crate::text::optional_text(s));
    let mut out: Vec<String> = Vec::new();
    let mut i: usize = 0;
    while i < items.len()
        invariant
            i <= items.len(),
            view == items@.map_values(|s: Option<String>| crate::text::optional_text(s)),
            out.len() == i,
            forall|j: int| 0 <= j < i ==> (#[trigger] view[j]) is Some && out@[j]@ == view[j]->0,
        decreases items.len() - i,
    {
        match &items[i] {
            Some(t) => {
                assert(view[i as int] == Some(t@));
                out.push(t.clone());
            },
            None => {
                assert(view[i as int] is None);
                return None;
            },
        }
        i += 1;
    }
    assert(crate::text::texts(out@) =~= view.map_values(|t: Option<Seq<char>>| t->0));
    Some(out)
}

impl Config {
    /// The configuration that a list of settings describes. Every key must be a setting and have
    /// a value of its type, and the poll interval must not be zero.
    pub fn from_settings(settings: &Vec<(String, Setting)>) -> (r: Result<Config, ConfigError>)
        ensures
            from_settings_post(settings_view(settings@), r),
    {
        let ghost all = settings_view(settings@);
        let mut poll: Option<u64> = None;
        let mut orgs: Option<bool> = None;
        let mut ignore: Option<Vec<String>> = None;
        let mut i: usize = 0;
        proof {
            lemma_keys_differ();
            assert(all.take(0) =~= Seq::empty());
        }
        while i < settings.len()
            invariant
                i <= settings.len(),
                all == settings_view(settings@),
                well_typed(all.take(i as int)),
                poll is Some == lookup(all.take(i as int), "poll_interval_secs"@) is Some,
                poll is Some ==> poll->0 == lookup(
                    all.take(i as int),
                    "poll_interval_secs"@,
                )->0.integer->0,
                orgs is Some == lookup(all.take(i as int), "include_orgs"@) is Some,
                orgs is Some ==> orgs->0 == lookup(all.take(i as int), "include_orgs"@)->0.boolean->0,
                ignore is Some == lookup(all.take(i as int), "ignore"@) is Some,
                ignore is Some ==> crate::text::texts(ignore->0@) == lookup(
                    all.take(i as int),
                    "ignore"@,
                )->0.list->0.map_values(|t: Option<Seq<char>>| t->0),
                "poll_interval_secs"@ != "include_orgs"@,
                "poll_interval_secs"@ != "ignore"@,
                "include_orgs"@ != "ignore"@,
            decreases settings.len() - i,
        {
            let entry = &settings[i];
            assert(all[i as int] == (entry.0@, entry.1@));
            proof {
                assert(all.take(i + 1).drop_last() =~= all.take(i as int));
                assert(all.take(i + 1).last() == all[i as int]);
            }
            let key = entry.0.as_str();
            if text_eq(key, "poll_interval_secs") {
                match entry.1.integer {
                    Some(n) if n >= 0 => {
                        poll = Some(n as u64);
                    },
                    _ => {
                        assert(is_first_fault(all, i as int));
                        return Err(ConfigError::WrongValue(entry.0.clone()));
                    },
                }
            } else if text_eq(key, "include_orgs") {
                match entry.1.boolean {
                    Some(b) => {
                        orgs = Some(b);
                    },
                    None => {
                        assert(is_first_fault(all, i as int));
                        return Err(ConfigError::WrongValue(entry.0.clone()));
                    },
                }
            } else if text_eq(key, "ignore") {
                let strings = match &entry.1.list {
                    Some(items) => strings_of(items),
                    None => None,
                };
                match strings {
                    Some(list) => {
                        ignore = Some(list);
                    },
                    None => {
                        assert(is_first_fault(all, i as int));
                        return Err(ConfigError::WrongValue(entry.0.clone()));
                    },
                }
            } else {
                assert(is_first_fault(all, i as int));
                return Err(ConfigError::UnknownKey(entry.0.clone()));
            }
            proof {
                assert forall|j: int|
                    #![trigger all.take(i + 1)[j]]
                    0 <= j < i + 1 implies is_known_key(all.take(i + 1)[j].0) && fits(
                    all.take(i + 1)[j].0,
                    all.take(i + 1)[j].1,
                ) by {
                    if j < i {
                        assert(all.take(i + 1)[j] == all.take(i as int)[j]);
                    }
                }
            }
            i += 1;
        }
        assert(all.take(i as int) =~= all);
        let config = Config {
            poll_interval_secs: match poll {
                Some(n) => n,
                None => default_poll_interval(),
            },
            include_orgs: match orgs {
                Some(b) => b,
                None => default_include_orgs(),
            },
            ignore: match ignore {
                Some(list) => list,
                None => Vec::new(),
            },
        };
        assert(config@.ignore =~= configured(all).ignore);
        if config.poll_interval_secs == 0 {
            return Err(ConfigError::ZeroPollInterval);
        }
        Ok(config)
    }

    /// Reads the text of a configuration file.
    pub fn from_toml(s: &str) -> (r: Result<Config, ConfigError>)
        ensures
            toml_settings(s@) is None ==> r is Err && r->Err_0 is Syntax,
            toml_settings(s@) is Some ==> from_settings_post(toml_settings(s@)->0, r),
    {
        match read_settings(s) {
            Ok(settings) => Config::from_settings(&settings),
            Err(e) => Err(ConfigError::Syntax(e)),
        }
    }
}

/// Why the `ignore` globs cannot be used.
#[derive(Debug)]
pub enum IgnoreError {
    /// One of them is not a glob.
    Invalid { pattern: String, cause: globset::Error },
    /// They do not fit into one matcher.
    Build(globset::Error),
}

impl IgnoreError {
    /// The text of [`IgnoreError::message`].
    pub open spec fn message_text(self) -> Seq<char> {
        match self {
            IgnoreError::Invalid { pattern, .. } => "invalid ignore glob: "@ + pattern@,
            IgnoreError::Build(_) => "failed to build ignore matcher"@,
        }
    }

    /// What to tell the user.
    pub fn message(&self) -> (r: String)
        ensures
            r@ == self.message_text(),
    {
        match self {
            IgnoreError::Invalid { pattern, .. } => "invalid ignore glob: ".to_owned().concat(
                pattern.as_str(),
            ),
            IgnoreError::Build(_) => "failed to build ignore matcher".to_owned(),
        }
    }
}

/// Every one of these patterns is a glob.
pub open spec fn all_globs(ignore: Seq<Seq<char>>) -> bool {
    forall|i: int|
        0 <= i < ignore.len() ==> crate::globs::is_glob(#[trigger] ignore[i], LITERAL_SEPARATOR)
}

/// The patterns, each with the rule that only a `/` matches a `/`.
pub open spec fn with_separator(ignore: Seq<Seq<char>>) -> Seq<(Seq<char>, bool)> {
    ignore.map_values(|p: Seq<char>| (p, LITERAL_SEPARATOR))
}

/// The patterns can be made into a matcher.
pub open spec fn usable(ignore: Seq<Seq<char>>) -> bool {
    all_globs(ignore) && crate::globs::globs_compile(with_separator(ignore))
}

/// What is reported of patterns that cannot be made into a matcher: the first of them that is not
/// a glob or, where every one is, that they do not fit into one matcher.
pub open spec fn is_ignore_error(ignore: Seq<Seq<char>>, e: IgnoreError) -> bool {
    match e {
        IgnoreError::Invalid { pattern, .. } => exists|k: int|
            #![trigger ignore[k]]
            0 <= k < ignore.len() && all_globs(ignore.take(k)) && !crate::globs::is_glob(
                ignore[k],
                LITERAL_SEPARATOR,
            ) && pattern@ == ignore[k],
        IgnoreError::Build(_) => all_globs(ignore),
    }
}

/// One of the patterns matches `name`.
pub open spec fn is_glob_ignored(ignore: Seq<Seq<char>>, name: Seq<char>) -> bool {
    exists|i: int|
        0 <= i < ignore.len() && crate::globs::glob_matches(
            #[trigger] ignore[i],
            LITERAL_SEPARATOR,
            name,
        )
}

/// Matches the full names of repositories against the `ignore` globs.
#[derive(Debug)]
pub struct IgnoreMatcher {
    set: globset::GlobSet,
}

impl View for IgnoreMatcher {
    type V = Seq<(Seq<char>, bool)>;

    /// The globs.
    closed spec fn view(&self) -> Seq<(Seq<char>, bool)> {
        crate::globs::set_globs(self.set)
    }
}

impl IgnoreMatcher {
    /// Whether one of the globs matches `full_name`.
    pub fn is_ignored(&self, full_name: &str) -> (r: bool)
        ensures
            r == crate::globs::some_match(self@, full_name@),
    {
        set_matches(&self.set, full_name)
    }
}

impl Config {
    /// A matcher of the `ignore` globs.
    pub fn ignore_matcher(&self) -> (r: Result<IgnoreMatcher, IgnoreError>)
        ensures
            r is Ok == usable(self@.ignore),
            self@.ignore.len() == 0 ==> r is Ok,
            r is Ok ==> r->Ok_0@ == with_separator(self@.ignore),
            r matches Err(e) ==> is_ignore_error(self@.ignore, e),
    {
        let mut builder = new_builder();
        let ghost ignore = self@.ignore;
        let mut i: usize = 0;
        while i < self.ignore.len()
            invariant
                i <= self.ignore.len(),
                ignore == self@.ignore,
                all_globs(ignore.take(i as int)),
                crate::globs::builder_globs(builder) == with_separator(ignore.take(i as int)),
            decreases self.ignore.len() - i,
        {
            let pattern = &self.ignore[i];
            assert(ignore[i as int] == pattern@);
            match add_glob(&mut builder, pattern.as_str(), LITERAL_SEPARATOR) {
                Ok(_) => {},
                Err(cause) => {
                    return Err(IgnoreError::Invalid { pattern: pattern.clone(), cause });
                },
            }
            proof {
                assert(ignore.take(i + 1) =~= ignore.take(i as int).push(ignore[i as int]));
                assert forall|j: int| 0 <= j < i + 1 implies crate::globs::is_glob(
                    #[trigger] ignore.take(i + 1)[j],
                    LITERAL_SEPARATOR,
                ) by {
                    if j < i {
                        assert(ignore.take(i + 1)[j] == ignore.take(i as int)[j]);
                    }
                }
                assert(with_separator(ignore.take(i + 1)) =~= with_separator(
                    ignore.take(i as int),
                ).push((ignore[i as int], LITERAL_SEPARATOR)));
            }
            i += 1;
        }
        assert(ignore.take(i as int) =~= ignore);
        match build_set(&builder) {
            Ok(set) => Ok(IgnoreMatcher { set }),
            Err(cause) => Err(IgnoreError::Build(cause)),
        }
    }
}

/// A matcher of the `ignore` globs of a configuration ignores exactly the names that one of those
/// globs matches; with no globs it ignores none.
pub proof fn matcher_follows_the_globs(ignore: Seq<Seq<char>>, name: Seq<char>)
    ensures
        is_glob_ignored(ignore, name) == crate::globs::some_match(with_separator(ignore), name),
        ignore.len() == 0 ==> !is_glob_ignored(ignore, name),
{
    let globs = with_separator(ignore);
    if is_glob_ignored(ignore, name) {
        let i = choose|i: int|
            0 <= i < ignore.len() && crate::globs::glob_matches(
                #[trigger] ignore[i],
                LITERAL_SEPARATOR,
                name,
            );
        assert(globs[i] == (ignore[i], LITERAL_SEPARATOR));
    }
    if crate::globs::some_match(globs, name) {
        let i = choose|i: int|
            #![trigger globs[i]]
            0 <= i < globs.len() && crate::globs::glob_matches(globs[i].0, globs[i].1, name);
        assert(globs[i] == (ignore[i], LITERAL_SEPARATOR));
    }
}

} // verus!
