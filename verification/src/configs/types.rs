//! Per-provider settings, the configuration error taxonomy, and the
//! filesystem and environment capabilities the store is written against.

use vstd::prelude::*;

use crate::provider::{spec_provider_name, Provider};

verus! {

/// The settings the document stores for one provider.
#[derive(Debug, Clone)]
pub struct ProviderConfig {
    pub api_key: String,
    pub model: String,
}

/// What a [`ProviderConfig`] holds, as plain character sequences.
#[verifier::ext_equal]
pub ghost struct ProviderConfigView {
    pub api_key: Seq<char>,
    pub model: Seq<char>,
}

impl View for ProviderConfig {
    type V = ProviderConfigView;

    open spec fn view(&self) -> ProviderConfigView {
        ProviderConfigView { api_key: self.api_key@, model: self.model@ }
    }
}

/// A validation failure while resolving or updating a configuration.  Every
/// variant carries what the user needs to self-correct; rendering it as text
/// is left to the caller.
#[derive(Debug, Clone)]
pub enum ConfigError {
    /// The document selects no provider.
    NoProviderSelected,
    /// The document has no provider table, or resolution found it empty.
    NoProvidersConfigured,
    /// The named provider has no entry in the provider table; `available`
    /// enumerates every key the table currently holds.
    UnknownProvider { provider: Provider, available: Vec<Provider> },
    /// The stored API key for the selected provider is empty or whitespace
    /// and no override supplied one.
    MissingApiKey { provider: Provider },
    /// A required field was never supplied to the configuration builder.
    BuildValidationFailed,
}

/// What a [`ConfigError`] holds, with the enumerated keys as a sequence.
#[verifier::ext_equal]
pub ghost enum ConfigErrorView {
    NoProviderSelected,
    NoProvidersConfigured,
    UnknownProvider { provider: Provider, available: Seq<Provider> },
    MissingApiKey { provider: Provider },
    BuildValidationFailed,
}

impl View for ConfigError {
    type V = ConfigErrorView;

    open spec fn view(&self) -> ConfigErrorView {
        match self {
            ConfigError::NoProviderSelected => ConfigErrorView::NoProviderSelected,
            ConfigError::NoProvidersConfigured => ConfigErrorView::NoProvidersConfigured,
            ConfigError::UnknownProvider { provider, available } => ConfigErrorView::UnknownProvider {
                provider: *provider,
                available: available@,
            },
            ConfigError::MissingApiKey { provider } => ConfigErrorView::MissingApiKey {
                provider: *provider,
            },
            ConfigError::BuildValidationFailed => ConfigErrorView::BuildValidationFailed,
        }
    }
}

/// Whitespace, as the blank-key check understands it.
pub open spec fn spec_is_space(c: char) -> bool {
    c == ' ' || c == '\t' || c == '\n' || c == '\r'
}

/// A string is blank when every character is whitespace; an empty string is
/// blank.
pub open spec fn spec_is_blank(s: Seq<char>) -> bool {
    forall|i: int| 0 <= i < s.len() ==> spec_is_space(s[i])
}

/// Whether two string slices hold the same characters.
pub(crate) fn str_eq(a: &str, b: &str) -> (r: bool)
    ensures
        r == (a@ == b@),
{
    let n = a.unicode_len();
    if n != b.unicode_len() {
        return false;
    }
    let mut i: usize = 0;
    while i < n
        invariant
            n == a@.len() == b@.len(),
            0 <= i <= n,
            forall|j: int| 0 <= j < i ==> a@[j] == b@[j],
        decreases n - i,
    {
        if a.get_char(i) != b.get_char(i) {
            return false;
        }
        i = i + 1;
    }
    assert(a@ =~= b@);
    true
}

/// Whether a stored string is empty or whitespace-only.
pub fn is_blank(s: &str) -> (r: bool)
    ensures
        r == spec_is_blank(s@),
{
    let n = s.unicode_len();
    let mut i: usize = 0;
    while i < n
        invariant
            n == s@.len(),
            0 <= i <= n,
            forall|j: int| 0 <= j < i ==> spec_is_space(s@[j]),
        decreases n - i,
    {
        let c = s.get_char(i);
        if !(c == ' ' || c == '\t' || c == '\n' || c == '\r') {
            assert(!spec_is_space(s@[i as int]));
            return false;
        }
        i = i + 1;
    }
    true
}

} // verus!

// The filesystem and environment capabilities the store is written against,
// and in-memory substitutes that satisfy the identical contract.
verus! {

/// A filesystem operation failed.
#[derive(Debug, Clone, Copy)]
pub struct FsError;

/// An environment variable is not set or unreadable.
#[derive(Debug, Clone, Copy)]
pub struct EnvError;

/// What the store needs from a filesystem, modelled as a map from paths to
/// file contents.  Every operation is fallible; a production implementation
/// delegates to the real OS outside this crate, and [`MemFileSystem`] is a
/// verified in-memory substitute.
pub trait FileSystem: Sized {
    /// The files the store can observe: contents by path.
    spec fn files(&self) -> Map<Seq<char>, Seq<char>>;

    /// Whether a file exists at `path`.
    fn file_exists(&self, path: &str) -> (r: bool)
        ensures
            r == self.files().contains_key(path@),
    ;

    /// The contents of the file at `path`.
    fn read_to_string(&self, path: &str) -> (r: Result<String, FsError>)
        ensures
            (match r {
                Ok(s) => self.files().contains_key(path@) && s@ == self.files()[path@],
                Err(_) => !self.files().contains_key(path@),
            }),
    ;

    /// Creates the directory and its parents; files are untouched.
    fn create_dir_all(&mut self, path: &str) -> (r: Result<(), FsError>)
        ensures
            final(self).files() == old(self).files(),
    ;

    /// Replaces the whole file at `path` with `contents`.
    fn write(&mut self, path: &str, contents: &str) -> (r: Result<(), FsError>)
        ensures
            (match r {
                Ok(_) => final(self).files() == old(self).files().insert(path@, contents@),
                Err(_) => final(self).files() == old(self).files(),
            }),
    ;
}

/// What the store needs from the process environment: its variables and the
/// home directory.
pub trait Environment: Sized {
    /// The environment variables: values by name.
    spec fn vars(&self) -> Map<Seq<char>, Seq<char>>;

    /// The home directory, if there is one.
    spec fn home(&self) -> Option<Seq<char>>;

    /// The value of the variable named `key`.
    fn var(&self, key: &str) -> (r: Result<String, EnvError>)
        ensures
            (match r {
                Ok(v) => self.vars().contains_key(key@) && v@ == self.vars()[key@],
                Err(_) => !self.vars().contains_key(key@),
            }),
    ;

    /// The home directory.
    fn home_dir(&self) -> (r: Option<String>)
        ensures
            (match (r, self.home()) {
                (Some(h), Some(hs)) => h@ == hs,
                (None, None) => true,
                _ => false,
            }),
    ;
}

/// The map an association list denotes; a later entry for the same key wins.
pub open spec fn spec_assoc_map(entries: Seq<(String, String)>) -> Map<Seq<char>, Seq<char>>
    decreases entries.len(),
{
    if entries.len() == 0 {
        Map::empty()
    } else {
        spec_assoc_map(entries.drop_last()).insert(entries.last().0@, entries.last().1@)
    }
}

/// A key is absent from the suffix, so the denoted map agrees with the
/// prefix's map at that key.
proof fn lemma_assoc_map_skip(entries: Seq<(String, String)>, p: Seq<char>, i: int)
    requires
        0 <= i <= entries.len(),
        forall|j: int| i <= j < entries.len() ==> entries[j].0@ != p,
    ensures
        spec_assoc_map(entries).contains_key(p) == spec_assoc_map(
            entries.take(i),
        ).contains_key(p),
        spec_assoc_map(entries).contains_key(p) ==> spec_assoc_map(entries)[p] == spec_assoc_map(
            entries.take(i),
        )[p],
    decreases entries.len() - i,
{
    if i < entries.len() {
        lemma_assoc_map_skip(entries.take(entries.len() - 1), p, i);
        assert(entries.take(entries.len() - 1) =~= entries.drop_last());
        assert(entries.take(entries.len() - 1).take(i) =~= entries.take(i));
        assert(entries.last().0@ != p);
    } else {
        assert(entries.take(i) =~= entries);
    }
}

/// Shared lookup over an association list: the value of the last entry for
/// the key, as [`spec_assoc_map`] denotes.
fn assoc_lookup(entries: &Vec<(String, String)>, key: &str) -> (r: Option<String>)
    ensures
        (match r {
            Some(v) => spec_assoc_map(entries@).contains_key(key@) && v@ == spec_assoc_map(
                entries@,
            )[key@],
            None => !spec_assoc_map(entries@).contains_key(key@),
        }),
{
    let n = entries.len();
    let mut i = n;
    while i > 0
        invariant
            n == entries@.len(),
            0 <= i <= n,
            forall|j: int| i <= j < n ==> entries@[j].0@ != key@,
        decreases i,
    {
        i = i - 1;
        if str_eq(entries[i].0.as_str(), key) {
            proof {
                lemma_assoc_map_skip(entries@, key@, i + 1);
                assert(entries@.take(i + 1).drop_last() =~= entries@.take(i as int));
                assert(entries@.take(i + 1).last() == entries@[i as int]);
            }
            return Some(entries[i].1.clone());
        }
    }
    proof {
        lemma_assoc_map_skip(entries@, key@, 0);
        assert(entries@.take(0) =~= Seq::<(String, String)>::empty());
    }
    None
}

/// An in-memory filesystem: the test substitute for the real one.  A write
/// appends to the log of entries; the observed files are the last write per
/// path.
pub struct MemFileSystem {
    entries: Vec<(String, String)>,
}

impl MemFileSystem {
    /// An empty store.
    pub fn new() -> (r: MemFileSystem)
        ensures
            r.files() == Map::<Seq<char>, Seq<char>>::empty(),
    {
        MemFileSystem { entries: Vec::new() }
    }
}

impl FileSystem for MemFileSystem {
    closed spec fn files(&self) -> Map<Seq<char>, Seq<char>> {
        spec_assoc_map(self.entries@)
    }

    fn file_exists(&self, path: &str) -> (r: bool) {
        assoc_lookup(&self.entries, path).is_some()
    }

    fn read_to_string(&self, path: &str) -> (r: Result<String, FsError>) {
        match assoc_lookup(&self.entries, path) {
            Some(v) => Ok(v),
            None => Err(FsError),
        }
    }

    fn create_dir_all(&mut self, path: &str) -> (r: Result<(), FsError>)
        ensures
            r is Ok,
    {
        Ok(())
    }

    fn write(&mut self, path: &str, contents: &str) -> (r: Result<(), FsError>)
        ensures
            r is Ok,
    {
        self.entries.push((path.to_owned(), contents.to_owned()));
        proof {
            assert(self.entries@.drop_last() =~= old(self).entries@);
        }
        Ok(())
    }
}

/// An in-memory environment: the test substitute for the real one.
pub struct MemEnvironment {
    entries: Vec<(String, String)>,
    home_path: Option<String>,
}

impl MemEnvironment {
    /// No variables set and no home directory.
    pub fn new() -> (r: MemEnvironment)
        ensures
            r.vars() == Map::<Seq<char>, Seq<char>>::empty(),
            r.home() is None,
    {
        MemEnvironment { entries: Vec::new(), home_path: None }
    }

    /// Sets a variable.
    pub fn set_var(&mut self, key: &str, value: &str)
        ensures
            final(self).vars() == old(self).vars().insert(key@, value@),
            final(self).home() == old(self).home(),
    {
        self.entries.push((key.to_owned(), value.to_owned()));
        proof {
            assert(self.entries@.drop_last() =~= old(self).entries@);
        }
    }

    /// Sets the home directory.
    pub fn set_home(&mut self, home: &str)
        ensures
            final(self).vars() == old(self).vars(),
            final(self).home() == Some(home@),
    {
        self.home_path = Some(home.to_owned());
    }
}

impl Environment for MemEnvironment {
    closed spec fn vars(&self) -> Map<Seq<char>, Seq<char>> {
        spec_assoc_map(self.entries@)
    }

    closed spec fn home(&self) -> Option<Seq<char>> {
        match self.home_path {
            Some(h) => Some(h@),
            None => None,
        }
    }

    fn var(&self, key: &str) -> (r: Result<String, EnvError>) {
        match assoc_lookup(&self.entries, key) {
            Some(v) => Ok(v),
            None => Err(EnvError),
        }
    }

    fn home_dir(&self) -> (r: Option<String>) {
        match &self.home_path {
            Some(h) => Some(h.clone()),
            None => None,
        }
    }
}

} // verus!

// Errors as text: every validation failure carries the remediation the user
// needs, rendered exactly as the specifications below state.
verus! {

/// The identifiers of the given providers, separated by commas.
pub open spec fn spec_provider_list(ps: Seq<Provider>) -> Seq<char>
    decreases ps.len(),
{
    if ps.len() == 0 {
        Seq::empty()
    } else if ps.len() == 1 {
        spec_provider_name(ps[0])
    } else {
        spec_provider_name(ps[0]) + ", "@ + spec_provider_list(ps.drop_first())
    }
}

/// Listing one more provider appends a separator and its identifier.
proof fn lemma_provider_list_snoc(ps: Seq<Provider>, p: Provider)
    requires
        ps.len() >= 1,
    ensures
        spec_provider_list(ps.push(p)) == spec_provider_list(ps) + ", "@ + spec_provider_name(p),
    decreases ps.len(),
{
    if ps.len() == 1 {
        assert(ps.push(p).drop_first() =~= seq![p]);
        assert(ps.push(p)[0] == ps[0]);
        assert(seq![p][0] == p);
        assert(spec_provider_list(seq![p]) == spec_provider_name(p));
    } else {
        lemma_provider_list_snoc(ps.drop_first(), p);
        assert(ps.push(p).drop_first() =~= ps.drop_first().push(p));
        assert(ps.push(p)[0] == ps[0]);
        assert(spec_provider_name(ps[0]) + ", "@ + (spec_provider_list(ps.drop_first()) + ", "@
            + spec_provider_name(p)) =~= (spec_provider_name(ps[0]) + ", "@ + spec_provider_list(
            ps.drop_first(),
        )) + ", "@ + spec_provider_name(p));
    }
}

/// The identifiers of the given providers, separated by commas.
pub fn provider_list(ps: &Vec<Provider>) -> (r: String)
    ensures
        r@ == spec_provider_list(ps@),
{
    let mut out = String::new();
    let n = ps.len();
    if n == 0 {
        proof {
            assert(out@ =~= spec_provider_list(ps@));
        }
        return out;
    }
    out.append(ps[0].name());
    proof {
        assert(ps@.take(1) =~= seq![ps@[0]]);
        assert(out@ =~= spec_provider_list(ps@.take(1)));
    }
    let mut i: usize = 1;
    while i < n
        invariant
            n == ps@.len(),
            1 <= i <= n,
            after_borrow(out)@ == spec_provider_list(ps@.take(i as int)),
        decreases n - i,
    {
        out.append(", ");
        out.append(ps[i].name());
        proof {
            assert(ps@.take(i + 1) =~= ps@.take(i as int).push(ps@[i as int]));
            lemma_provider_list_snoc(ps@.take(i as int), ps@[i as int]);
            assert(out@ =~= spec_provider_list(ps@.take(i as int)) + ", "@ + spec_provider_name(
                ps@[i as int],
            ));
        }
        i = i + 1;
    }
    proof {
        assert(ps@.take(n as int) =~= ps@);
    }
    out
}

/// The text of each validation failure, remediation included.
pub open spec fn spec_config_error_message(e: ConfigErrorView) -> Seq<char> {
    match e {
        ConfigErrorView::NoProviderSelected => "No provider selected in config\nSet 'provider = \"openrouter\"' first"@,
        ConfigErrorView::NoProvidersConfigured => "No providers configured in config\nAdd a [providers.openrouter] section"@,
        ConfigErrorView::UnknownProvider { provider, available } => "Provider '"@
            + spec_provider_name(provider) + "' not found in config\n\nAvailable providers: "@
            + spec_provider_list(available) + "\nAdd a [providers."@ + spec_provider_name(provider)
            + "] section to your config"@,
        ConfigErrorView::MissingApiKey { provider } => "API key not set for provider '"@
            + spec_provider_name(provider)
            + "'\n\nSet your API key with: qq use key YOUR_API_KEY\nOr edit your config"@,
        ConfigErrorView::BuildValidationFailed => "Failed to build config: a required field is missing or empty"@,
    }
}

impl ConfigError {
    /// The failure as text, with the exact command or config edit the user
    /// needs to self-correct.
    pub fn message(&self) -> (r: String)
        ensures
            r@ == spec_config_error_message(self@),
    {
        match self {
            ConfigError::NoProviderSelected => {
                "No provider selected in config\nSet 'provider = \"openrouter\"' first".to_owned()
            },
            ConfigError::NoProvidersConfigured => {
                "No providers configured in config\nAdd a [providers.openrouter] section".to_owned()
            },
            ConfigError::UnknownProvider { provider, available } => {
                let mut out = "Provider '".to_owned();
                out.append(provider.name());
                out.append("' not found in config\n\nAvailable providers: ");
                let list = provider_list(available);
                out.append(list.as_str());
                out.append("\nAdd a [providers.");
                out.append(provider.name());
                out.append("] section to your config");
                proof {
                    assert(out@ =~= spec_config_error_message(self@));
                }
                out
            },
            ConfigError::MissingApiKey { provider } => {
                let mut out = "API key not set for provider '".to_owned();
                out.append(provider.name());
                out.append(
                    "'\n\nSet your API key with: qq use key YOUR_API_KEY\nOr edit your config",
                );
                proof {
                    assert(out@ =~= spec_config_error_message(self@));
                }
                out
            },
            ConfigError::BuildValidationFailed => {
                "Failed to build config: a required field is missing or empty".to_owned()
            },
        }
    }
}

} // verus!
