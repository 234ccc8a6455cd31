//! The persisted config store: locates, creates, reads, updates and persists
//! the configuration document through the filesystem and environment
//! capabilities.

use vstd::prelude::*;

use crate::args::Args;
use crate::configs::codec::{
    parse_document, provider_of_name, render_document, spec_parse_doc, spec_render_doc,
};
use crate::configs::config::{resolve_spec, Config};
use crate::configs::config_file::{
    spec_update_api_key, spec_update_model, spec_update_provider, table_get, table_keys,
    table_keys_vec, table_unique_keys, table_with_model, ConfigFile, DocView,
};
use crate::configs::types::{
    spec_config_error_message, spec_provider_list, ConfigError, ConfigErrorView, Environment,
    FileSystem, ProviderConfig,
};
use crate::persona::Persona;
use crate::provider::{spec_provider_of_name, Provider};

verus! {

/// A failure of the store: an I/O or parse failure always carries the path
/// of the document, a validation failure carries the path and the underlying
/// configuration error.
#[derive(Debug)]
pub enum StoreError {
    /// The document could not be read.
    ReadFailed { path: String },
    /// The document or its directory could not be written.
    WriteFailed { path: String },
    /// The document exists but does not parse; `line` is the one-based
    /// number of the rejected line.
    ParseFailed { path: String, line: usize },
    /// The identifier names no known provider; `available` enumerates the
    /// keys the document's table holds.
    UnknownProviderName { name: String, available: Vec<Provider> },
    /// The document parsed but the requested operation is invalid on it.
    Validation { path: String, error: ConfigError },
}

/// What a [`StoreError`] holds.
#[verifier::ext_equal]
pub ghost enum StoreErrorView {
    ReadFailed { path: Seq<char> },
    WriteFailed { path: Seq<char> },
    ParseFailed { path: Seq<char>, line: int },
    UnknownProviderName { name: Seq<char>, available: Seq<Provider> },
    Validation { path: Seq<char>, error: ConfigErrorView },
}

impl View for StoreError {
    type V = StoreErrorView;

    open spec fn view(&self) -> StoreErrorView {
        match self {
            StoreError::ReadFailed { path } => StoreErrorView::ReadFailed { path: path@ },
            StoreError::WriteFailed { path } => StoreErrorView::WriteFailed { path: path@ },
            StoreError::ParseFailed { path, line } => StoreErrorView::ParseFailed {
                path: path@,
                line: *line as int,
            },
            StoreError::UnknownProviderName { name, available } => StoreErrorView::UnknownProviderName {
                name: name@,
                available: available@,
            },
            StoreError::Validation { path, error } => StoreErrorView::Validation {
                path: path@,
                error: error@,
            },
        }
    }
}

/// Where the document lives: under the home-override directory when the
/// `QQ_HOME_PATH` variable is set, else under `.qq` in the home directory,
/// falling back to the working directory.
pub open spec fn spec_config_path(
    vars: Map<Seq<char>, Seq<char>>,
    home: Option<Seq<char>>,
) -> Seq<char> {
    if vars.contains_key("QQ_HOME_PATH"@) {
        vars["QQ_HOME_PATH"@] + "/config.toml"@
    } else {
        (match home {
            Some(h) => h,
            None => "."@,
        }) + "/.qq/config.toml"@
    }
}

/// The document synthesized on first use: the OpenRouter provider selected
/// with an empty API key and a baseline free-tier model, the default
/// persona, clipboard copy on, and a local log file.
pub open spec fn spec_default_doc() -> DocView {
    DocView {
        provider: Some(Provider::OpenRouter),
        providers: Some(
            seq![
                (
                    Provider::OpenRouter,
                    crate::configs::types::ProviderConfigView {
                        api_key: ""@,
                        model: "kwaipilot/kat-coder-pro:free"@,
                    },
                ),
            ],
        ),
        persona: Some(Persona::Default),
        auto_copy: true,
        log_file: Some("./.qq.jsonl"@),
    }
}

/// The default document as a value.
pub fn default_config_file() -> (r: ConfigFile)
    ensures
        r@ == spec_default_doc(),
        r@.wf(),
{
    let mut providers: Vec<(Provider, ProviderConfig)> = Vec::new();
    providers.push(
        (
            Provider::OpenRouter,
            ProviderConfig {
                api_key: "".to_owned(),
                model: "kwaipilot/kat-coder-pro:free".to_owned(),
            },
        ),
    );
    let r = ConfigFile {
        provider: Some(Provider::OpenRouter),
        providers: Some(providers),
        persona: Some(Persona::Default),
        auto_copy: true,
        log_file: Some("./.qq.jsonl".to_owned()),
    };
    proof {
        assert(r@.providers->0 =~= spec_default_doc().providers->0);
        assert(r@ =~~= spec_default_doc());
    }
    r
}

/// The store, written against abstract filesystem and environment
/// capabilities so it can run on the real OS or on in-memory substitutes.
pub struct ConfigService<F: FileSystem, E: Environment> {
    pub fs: F,
    pub env: E,
}

impl<F: FileSystem, E: Environment> ConfigService<F, E> {
    pub fn new(fs: F, env: E) -> (r: Self)
        ensures
            r.fs == fs,
            r.env == env,
    {
        Self { fs, env }
    }

    /// The path of the document, resolved afresh on every call.
    pub fn get_config_path(&self) -> (r: String)
        ensures
            r@ == spec_config_path(self.env.vars(), self.env.home()),
    {
        match self.env.var("QQ_HOME_PATH") {
            Ok(qq_home) => {
                let mut path = qq_home;
                path.append("/config.toml");
                path
            },
            Err(_) => {
                let mut path = match self.env.home_dir() {
                    Some(h) => h,
                    None => ".".to_owned(),
                };
                path.append("/.qq/config.toml");
                path
            },
        }
    }

    /// Writes the default document at `config_path`, creating its directory
    /// first; the files gain exactly that document.
    pub fn create_default_config_file(&mut self, config_path: &str) -> (r: Result<
        (),
        StoreError,
    >)
        ensures
            final(self).env == old(self).env,
            (match r {
                Ok(_) => final(self).fs.files() == old(self).fs.files().insert(
                    config_path@,
                    spec_render_doc(spec_default_doc()),
                ),
                Err(e) => final(self).fs.files() == old(self).fs.files() && (e@ matches
                    StoreErrorView::WriteFailed { path } && path == config_path@),
            }),
    {
        if let Some(parent) = parent_dir(config_path) {
            if self.fs.create_dir_all(parent.as_str()).is_err() {
                return Err(StoreError::WriteFailed { path: config_path.to_owned() });
            }
        }
        let doc = default_config_file();
        let text = render_document(&doc);
        match self.fs.write(config_path, text.as_str()) {
            Ok(_) => Ok(()),
            Err(_) => Err(StoreError::WriteFailed { path: config_path.to_owned() }),
        }
    }

    /// Loads the document, synthesizing the default one on first use, and
    /// resolves it against the command-line overrides.
    pub fn load(&mut self, args: &Args) -> (r: Result<Config, StoreError>)
        ensures
            final(self).env == old(self).env,
            ({
                let path = spec_config_path(old(self).env.vars(), old(self).env.home());
                let files0 = old(self).fs.files();
                let files1 = final(self).fs.files();
                &&& (files0.contains_key(path) ==> files1 == files0)
                &&& (!files0.contains_key(path) ==> (files1 == files0.insert(
                    path,
                    spec_render_doc(spec_default_doc()),
                ) || (r is Err && files1 == files0)))
                &&& (files1.contains_key(path) ==> (match spec_parse_doc(files1[path]) {
                    Some(doc) => (match resolve_spec(doc, args@) {
                        Ok(cv) => r matches Ok(c) && c@ == cv,
                        Err(ev) => r matches Err(e) && e@ == (StoreErrorView::Validation {
                            path,
                            error: ev,
                        }),
                    }),
                    None => r matches Err(e) && (e@ matches StoreErrorView::ParseFailed {
                        path: p2,
                        line,
                    } && p2 == path && line >= 1),
                }))
                &&& (!files1.contains_key(path) ==> r is Err)
            }),
    {
        let path = self.get_config_path();
        if !self.fs.file_exists(path.as_str()) {
            match self.create_default_config_file(path.as_str()) {
                Ok(_) => {},
                Err(e) => {
                    return Err(e);
                },
            }
        }
        let contents = match self.fs.read_to_string(path.as_str()) {
            Ok(c) => c,
            Err(_) => {
                return Err(StoreError::ReadFailed { path });
            },
        };
        let doc = match parse_document(contents.as_str()) {
            Ok(doc) => doc,
            Err(line) => {
                return Err(StoreError::ParseFailed { path, line });
            },
        };
        match Config::from_config_file(&doc, args) {
            Ok(c) => Ok(c),
            Err(e) => Err(StoreError::Validation { path, error: e }),
        }
    }

    /// Reads, updates and rewrites the document so that `name` becomes the
    /// selected provider; the document must already exist and have an entry
    /// for it.  An identifier outside the closed provider set fails with the
    /// document's available keys enumerated.
    pub fn update_provider(&mut self, provider_name: &str) -> (r: Result<(), StoreError>)
        ensures
            final(self).env == old(self).env,
            ({
                let path = spec_config_path(old(self).env.vars(), old(self).env.home());
                let files0 = old(self).fs.files();
                match r {
                    Ok(_) => {
                        &&& spec_provider_of_name(provider_name@) is Some
                        &&& files0.contains_key(path)
                        &&& (spec_parse_doc(files0[path]) matches Some(doc) && (spec_update_provider(
                            doc,
                            spec_provider_of_name(provider_name@)->0,
                        ) matches Ok(doc2) && final(self).fs.files() == files0.insert(
                            path,
                            spec_render_doc(doc2),
                        )))
                    },
                    Err(e) => final(self).fs.files() == files0 && (match e@ {
                        StoreErrorView::UnknownProviderName { name, available } => {
                            &&& name == provider_name@
                            &&& spec_provider_of_name(provider_name@) is None
                            &&& files0.contains_key(path)
                            &&& (spec_parse_doc(files0[path]) matches Some(doc) && available
                                == (match doc.providers {
                                Some(t) => table_keys(t),
                                None => Seq::<Provider>::empty(),
                            }))
                        },
                        StoreErrorView::ReadFailed { path: p2 } => p2 == path
                            && !files0.contains_key(path),
                        StoreErrorView::ParseFailed { path: p2, line } => p2 == path
                            && files0.contains_key(path) && spec_parse_doc(files0[path]) is None
                            && line >= 1,
                        StoreErrorView::Validation { path: p2, error: ev } => {
                            &&& p2 == path
                            &&& spec_provider_of_name(provider_name@) is Some
                            &&& (spec_parse_doc(files0[path]) matches Some(doc)
                                && spec_update_provider(
                                doc,
                                spec_provider_of_name(provider_name@)->0,
                            ) == Err::<DocView, ConfigErrorView>(ev))
                        },
                        StoreErrorView::WriteFailed { path: p2 } => p2 == path,
                    }),
                }
            }),
    {
        let path = self.get_config_path();
        let contents = match self.fs.read_to_string(path.as_str()) {
            Ok(c) => c,
            Err(_) => {
                return Err(StoreError::ReadFailed { path });
            },
        };
        let mut doc = match parse_document(contents.as_str()) {
            Ok(doc) => doc,
            Err(line) => {
                return Err(StoreError::ParseFailed { path, line });
            },
        };
        let provider = match provider_of_name(provider_name) {
            Some(p) => p,
            None => {
                let available = match &doc.providers {
                    Some(t) => table_keys_vec(t),
                    None => Vec::new(),
                };
                return Err(
                    StoreError::UnknownProviderName {
                        name: provider_name.to_owned(),
                        available,
                    },
                );
            },
        };
        match doc.update_provider(&provider) {
            Ok(_) => {},
            Err(e) => {
                return Err(StoreError::Validation { path, error: e });
            },
        }
        let text = render_document(&doc);
        match self.fs.write(path.as_str(), text.as_str()) {
            Ok(_) => Ok(()),
            Err(_) => Err(StoreError::WriteFailed { path }),
        }
    }

    /// Reads, updates and rewrites the document so that the selected
    /// provider's stored model becomes `model_name`.
    pub fn update_model(&mut self, model_name: &str) -> (r: Result<(), StoreError>)
        ensures
            final(self).env == old(self).env,
            ({
                let path = spec_config_path(old(self).env.vars(), old(self).env.home());
                let files0 = old(self).fs.files();
                match r {
                    Ok(_) => {
                        &&& files0.contains_key(path)
                        &&& (spec_parse_doc(files0[path]) matches Some(doc) && (spec_update_model(
                            doc,
                            model_name@,
                        ) matches Ok(doc2) && final(self).fs.files() == files0.insert(
                            path,
                            spec_render_doc(doc2),
                        )))
                    },
                    Err(e) => final(self).fs.files() == files0 && (match e@ {
                        StoreErrorView::ReadFailed { path: p2 } => p2 == path
                            && !files0.contains_key(path),
                        StoreErrorView::ParseFailed { path: p2, line } => p2 == path
                            && files0.contains_key(path) && spec_parse_doc(files0[path]) is None
                            && line >= 1,
                        StoreErrorView::Validation { path: p2, error: ev } => p2 == path && (
                        spec_parse_doc(files0[path]) matches Some(doc) && spec_update_model(
                            doc,
                            model_name@,
                        ) == Err::<DocView, ConfigErrorView>(ev)),
                        StoreErrorView::WriteFailed { path: p2 } => p2 == path,
                        StoreErrorView::UnknownProviderName { .. } => false,
                    }),
                }
            }),
    {
        let path = self.get_config_path();
        let contents = match self.fs.read_to_string(path.as_str()) {
            Ok(c) => c,
            Err(_) => {
                return Err(StoreError::ReadFailed { path });
            },
        };
        let mut doc = match parse_document(contents.as_str()) {
            Ok(doc) => doc,
            Err(line) => {
                return Err(StoreError::ParseFailed { path, line });
            },
        };
        match doc.update_model(model_name) {
            Ok(_) => {},
            Err(e) => {
                return Err(StoreError::Validation { path, error: e });
            },
        }
        let text = render_document(&doc);
        match self.fs.write(path.as_str(), text.as_str()) {
            Ok(_) => Ok(()),
            Err(_) => Err(StoreError::WriteFailed { path }),
        }
    }

    /// Reads, updates and rewrites the document so that the selected
    /// provider's stored API key becomes `api_key`.
    pub fn update_api_key(&mut self, api_key: &str) -> (r: Result<(), StoreError>)
        ensures
            final(self).env == old(self).env,
            ({
                let path = spec_config_path(old(self).env.vars(), old(self).env.home());
                let files0 = old(self).fs.files();
                match r {
                    Ok(_) => {
                        &&& files0.contains_key(path)
                        &&& (spec_parse_doc(files0[path]) matches Some(doc) && (spec_update_api_key(
                            doc,
                            api_key@,
                        ) matches Ok(doc2) && final(self).fs.files() == files0.insert(
                            path,
                            spec_render_doc(doc2),
                        )))
                    },
                    Err(e) => final(self).fs.files() == files0 && (match e@ {
                        StoreErrorView::ReadFailed { path: p2 } => p2 == path
                            && !files0.contains_key(path),
                        StoreErrorView::ParseFailed { path: p2, line } => p2 == path
                            && files0.contains_key(path) && spec_parse_doc(files0[path]) is None
                            && line >= 1,
                        StoreErrorView::Validation { path: p2, error: ev } => p2 == path && (
                        spec_parse_doc(files0[path]) matches Some(doc) && spec_update_api_key(
                            doc,
                            api_key@,
                        ) == Err::<DocView, ConfigErrorView>(ev)),
                        StoreErrorView::WriteFailed { path: p2 } => p2 == path,
                        StoreErrorView::UnknownProviderName { .. } => false,
                    }),
                }
            }),
    {
        let path = self.get_config_path();
        let contents = match self.fs.read_to_string(path.as_str()) {
            Ok(c) => c,
            Err(_) => {
                return Err(StoreError::ReadFailed { path });
            },
        };
        let mut doc = match parse_document(contents.as_str()) {
            Ok(doc) => doc,
            Err(line) => {
                return Err(StoreError::ParseFailed { path, line });
            },
        };
        match doc.update_api_key(api_key) {
            Ok(_) => {},
            Err(e) => {
                return Err(StoreError::Validation { path, error: e });
            },
        }
        let text = render_document(&doc);
        match self.fs.write(path.as_str(), text.as_str()) {
            Ok(_) => Ok(()),
            Err(_) => Err(StoreError::WriteFailed { path }),
        }
    }
}

/// The directory part of a path: everything before the last separator.
fn parent_dir(path: &str) -> (r: Option<String>) {
    let n = path.unicode_len();
    let mut i = n;
    while i > 0
        invariant
            i <= n,
            n == path@.len(),
        decreases i,
    {
        i = i - 1;
        if path.get_char(i) == '/' {
            return Some(path.substring_char(0, i).to_owned());
        }
    }
    None
}

} // verus!

// The persistence round trip: what `update_model` writes, `load` reads back.
verus! {

/// Updating the model and persisting, then loading, yields a document whose
/// selected provider's entry stores the new model; every other field of the
/// document, and every other provider's entry, is unchanged.  The store
/// writes exactly `spec_render_doc` of the updated document and `load`
/// parses what it reads, so this connects the two ends.
pub proof fn lemma_update_model_round_trip(d: DocView, m: Seq<char>)
    requires
        d.wf(),
        spec_update_model(d, m) is Ok,
    ensures
        ({
            let d2 = spec_update_model(d, m)->Ok_0;
            &&& spec_parse_doc(spec_render_doc(d2)) == Some(d2)
            &&& (table_get(d2.providers->0, d.provider->0) matches Some(pc) && pc.model == m
                && pc.api_key == table_get(d.providers->0, d.provider->0)->0.api_key)
            &&& d2.provider == d.provider
            &&& d2.persona == d.persona
            &&& d2.auto_copy == d.auto_copy
            &&& d2.log_file == d.log_file
            &&& (forall|q: Provider| q != d.provider->0 ==> table_get(d2.providers->0, q)
                == table_get(d.providers->0, q))
        }),
{
    crate::configs::config_file::lemma_update_model_changes_only_model(d, m);
    let d2 = spec_update_model(d, m)->Ok_0;
    let t = d.providers->0;
    let t2 = d2.providers->0;
    assert(table_unique_keys(t2)) by {
        assert(t2 =~= table_with_model(t, d.provider->0, m));
        assert forall|i: int, j: int| 0 <= i < j < t2.len() implies t2[i].0 != t2[j].0 by {
            assert(t2[i].0 == t[i].0);
            assert(t2[j].0 == t[j].0);
        }
    }
    crate::configs::codec::lemma_parse_render_round_trip(d2);
}

} // verus!

// Store failures as text: I/O and parse failures name the path, validation
// failures carry the document's remediation text and the path.
verus! {

/// The character of one decimal digit.
pub open spec fn spec_digit_char(d: nat) -> char {
    if d == 0 {
        '0'
    } else if d == 1 {
        '1'
    } else if d == 2 {
        '2'
    } else if d == 3 {
        '3'
    } else if d == 4 {
        '4'
    } else if d == 5 {
        '5'
    } else if d == 6 {
        '6'
    } else if d == 7 {
        '7'
    } else if d == 8 {
        '8'
    } else {
        '9'
    }
}

/// The decimal digits of a number, most significant first.
pub open spec fn spec_dec_digits(n: nat) -> Seq<char>
    decreases n,
{
    if n < 10 {
        seq![spec_digit_char(n)]
    } else {
        spec_dec_digits(n / 10).push(spec_digit_char(n % 10))
    }
}

/// Appends the decimal digits of `n`.
fn push_dec(out: &mut String, n: u64)
    ensures
        final(out)@ == old(out)@ + spec_dec_digits(n as nat),
    decreases n,
{
    if n >= 10 {
        push_dec(out, n / 10);
    }
    let d = n % 10;
    let c: char = if d == 0 {
        '0'
    } else if d == 1 {
        '1'
    } else if d == 2 {
        '2'
    } else if d == 3 {
        '3'
    } else if d == 4 {
        '4'
    } else if d == 5 {
        '5'
    } else if d == 6 {
        '6'
    } else if d == 7 {
        '7'
    } else if d == 8 {
        '8'
    } else {
        '9'
    };
    proof {
        assert(c == spec_digit_char((n % 10) as nat));
    }
    out.push(c);
    proof {
        if n < 10 {
            assert(spec_dec_digits(n as nat) =~= seq![spec_digit_char(n as nat)]);
            assert(out@ =~= old(out)@ + spec_dec_digits(n as nat));
        } else {
            assert(out@ =~= old(out)@ + spec_dec_digits((n / 10) as nat).push(
                spec_digit_char((n % 10) as nat),
            ));
        }
    }
}

/// The text of each store failure.
pub open spec fn spec_store_error_message(e: StoreErrorView) -> Seq<char> {
    match e {
        StoreErrorView::ReadFailed { path } => "Failed to read config file "@ + path,
        StoreErrorView::WriteFailed { path } => "Failed to write config file "@ + path,
        StoreErrorView::ParseFailed { path, line } => "Failed to parse config file "@ + path
            + " at line "@ + spec_dec_digits(line as nat),
        StoreErrorView::UnknownProviderName { name, available } => "Provider '"@ + name
            + "' not found in config\n\nAvailable providers: "@ + spec_provider_list(available),
        StoreErrorView::Validation { path, error } => spec_config_error_message(error)
            + "\nConfig file: "@ + path,
    }
}

impl StoreError {
    /// The failure as text: the path for I/O and parse failures, the
    /// document's remediation text and the path for validation failures.
    pub fn message(&self) -> (r: String)
        ensures
            r@ == spec_store_error_message(self@),
    {
        match self {
            StoreError::ReadFailed { path } => {
                let mut out = "Failed to read config file ".to_owned();
                out.append(path.as_str());
                proof {
                    assert(out@ =~= spec_store_error_message(self@));
                }
                out
            },
            StoreError::WriteFailed { path } => {
                let mut out = "Failed to write config file ".to_owned();
                out.append(path.as_str());
                proof {
                    assert(out@ =~= spec_store_error_message(self@));
                }
                out
            },
            StoreError::ParseFailed { path, line } => {
                let mut out = "Failed to parse config file ".to_owned();
                out.append(path.as_str());
                out.append(" at line ");
                push_dec(&mut out, *line as u64);
                proof {
                    assert(out@ =~= spec_store_error_message(self@));
                }
                out
            },
            StoreError::UnknownProviderName { name, available } => {
                let mut out = "Provider '".to_owned();
                out.append(name.as_str());
                out.append("' not found in config\n\nAvailable providers: ");
                let list = crate::configs::types::provider_list(available);
                out.append(list.as_str());
                proof {
                    assert(out@ =~= spec_store_error_message(self@));
                }
                out
            },
            StoreError::Validation { path, error } => {
                let mut out = error.message();
                out.append("\nConfig file: ");
                out.append(path.as_str());
                proof {
                    assert(out@ =~= spec_store_error_message(self@));
                }
                out
            },
        }
    }
}

} // verus!
