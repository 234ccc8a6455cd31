//! Configuration resolution: merging the persisted document with
//! command-line overrides into one validated runtime configuration.

use vstd::prelude::*;

use crate::args::{Args, ArgsView};
use crate::configs::config_file::{
    table_contains, table_get, table_keys, ConfigFile, DocView,
};
use crate::configs::types::{is_blank, spec_is_blank, ConfigError, ConfigErrorView};
use crate::persona::Persona;
use crate::provider::Provider;

verus! {

/// The runtime configuration, immutable once built.  Constructed once per
/// invocation from the document and the overrides, then consumed.
#[derive(Debug)]
pub struct Config {
    pub provider: Provider,
    pub model: String,
    pub api_key: String,
    pub persona: Option<Persona>,
    pub auto_copy: bool,
    pub log_file: Option<String>,
}

/// What a [`Config`] holds, as plain values.
#[verifier::ext_equal]
pub ghost struct ConfigView {
    pub provider: Provider,
    pub model: Seq<char>,
    pub api_key: Seq<char>,
    pub persona: Option<Persona>,
    pub auto_copy: bool,
    pub log_file: Option<Seq<char>>,
}

impl View for Config {
    type V = ConfigView;

    open spec fn view(&self) -> ConfigView {
        ConfigView {
            provider: self.provider,
            model: self.model@,
            api_key: self.api_key@,
            persona: self.persona,
            auto_copy: self.auto_copy,
            log_file: match self.log_file {
                Some(p) => Some(p@),
                None => None,
            },
        }
    }
}

/// Staged construction of a [`Config`]: fields accumulate one at a time and
/// are validated together when the value is built.  `provider`, `model` and
/// `api_key` are required; the rest default to an absent or false value.
pub struct ConfigBuilder {
    pub provider: Option<Provider>,
    pub model: Option<String>,
    pub api_key: Option<String>,
    pub persona: Option<Persona>,
    pub auto_copy: bool,
    pub log_file: Option<String>,
}

impl ConfigBuilder {
    /// An empty builder: nothing set, `auto_copy` false.
    pub fn new() -> (r: ConfigBuilder)
        ensures
            r.provider is None,
            r.model is None,
            r.api_key is None,
            r.persona is None,
            r.auto_copy == false,
            r.log_file is None,
    {
        ConfigBuilder {
            provider: None,
            model: None,
            api_key: None,
            persona: None,
            auto_copy: false,
            log_file: None,
        }
    }

    pub fn provider(&mut self, provider: Provider)
        ensures
            (*final(self) == ConfigBuilder { provider: Some(provider), ..*old(self) }),
    {
        self.provider = Some(provider);
    }

    pub fn model(&mut self, model: String)
        ensures
            (final(self).model is Some),
            final(self).model->0@ == model@,
            (*final(self) == ConfigBuilder { model: final(self).model, ..*old(self) }),
    {
        self.model = Some(model);
    }

    pub fn api_key(&mut self, api_key: String)
        ensures
            (final(self).api_key is Some),
            final(self).api_key->0@ == api_key@,
            (*final(self) == ConfigBuilder { api_key: final(self).api_key, ..*old(self) }),
    {
        self.api_key = Some(api_key);
    }

    pub fn persona(&mut self, persona: Persona)
        ensures
            (*final(self) == ConfigBuilder { persona: Some(persona), ..*old(self) }),
    {
        self.persona = Some(persona);
    }

    pub fn auto_copy(&mut self, auto_copy: bool)
        ensures
            (*final(self) == ConfigBuilder { auto_copy, ..*old(self) }),
    {
        self.auto_copy = auto_copy;
    }

    pub fn log_file(&mut self, log_file: Option<String>)
        ensures
            (match (final(self).log_file, log_file) {
                (Some(a), Some(b)) => a@ == b@,
                (None, None) => true,
                _ => false,
            }),
            (*final(self) == ConfigBuilder { log_file: final(self).log_file, ..*old(self) }),
    {
        self.log_file = log_file;
    }

    /// Whether every required field was supplied and the model and API key
    /// are non-empty: a successful build never produces a partially-empty
    /// configuration.
    pub open spec fn complete(self) -> bool {
        &&& self.provider is Some
        &&& self.model matches Some(m) && m@.len() > 0
        &&& self.api_key matches Some(k) && k@.len() > 0
    }

    /// Validates that every required field was supplied and that the model
    /// and API key are non-empty, and produces the immutable configuration;
    /// rejection happens here, not at field-set time.
    pub fn build(self) -> (r: Result<Config, ConfigError>)
        ensures
            (match r {
                Ok(c) => self.complete() && c@ == ConfigView {
                    provider: self.provider->0,
                    model: self.model->0@,
                    api_key: self.api_key->0@,
                    persona: self.persona,
                    auto_copy: self.auto_copy,
                    log_file: match self.log_file {
                        Some(p) => Some(p@),
                        None => None,
                    },
                },
                Err(e) => !self.complete() && e@ == ConfigErrorView::BuildValidationFailed,
            }),
    {
        match (self.provider, self.model, self.api_key) {
            (Some(provider), Some(model), Some(api_key)) => {
                if model.as_str().is_empty() || api_key.as_str().is_empty() {
                    return Err(ConfigError::BuildValidationFailed);
                }
                Ok(
                    Config {
                        provider,
                        model,
                        api_key,
                        persona: self.persona,
                        auto_copy: self.auto_copy,
                        log_file: self.log_file,
                    },
                )
            },
            _ => Err(ConfigError::BuildValidationFailed),
        }
    }
}

/// Resolution of a document against overrides, in order: a provider must be
/// selected; the provider table must be present and non-empty; the selected
/// provider must have an entry; the stored API key must be non-blank unless
/// an override supplies one; then overrides win over stored values, and
/// `auto_copy` and `log_file` carry over unchanged.  An empty effective
/// model or API key fails validation rather than producing a partially-empty
/// configuration.
pub open spec fn resolve_spec(d: DocView, a: ArgsView) -> Result<ConfigView, ConfigErrorView> {
    match d.provider {
        None => Err(ConfigErrorView::NoProviderSelected),
        Some(p) => match d.providers {
            None => Err(ConfigErrorView::NoProvidersConfigured),
            Some(t) => if t.len() == 0 {
                Err(ConfigErrorView::NoProvidersConfigured)
            } else {
                match table_get(t, p) {
                    None => Err(
                        ConfigErrorView::UnknownProvider { provider: p, available: table_keys(t) },
                    ),
                    Some(pc) => if a.api_key is None && spec_is_blank(pc.api_key) {
                        Err(ConfigErrorView::MissingApiKey { provider: p })
                    } else {
                        let model = match a.model {
                            Some(m) => m,
                            None => pc.model,
                        };
                        let api_key = match a.api_key {
                            Some(k) => k,
                            None => pc.api_key,
                        };
                        if model.len() == 0 || api_key.len() == 0 {
                            Err(ConfigErrorView::BuildValidationFailed)
                        } else {
                            Ok(
                                ConfigView {
                                    provider: p,
                                    model,
                                    api_key,
                                    persona: match a.persona {
                                        Some(pe) => Some(pe),
                                        None => d.persona,
                                    },
                                    auto_copy: d.auto_copy,
                                    log_file: d.log_file,
                                },
                            )
                        }
                    },
                }
            },
        },
    }
}

/// A successful resolution is never partially empty: the model and API key
/// of the configuration it produces hold at least one character.
pub proof fn lemma_resolve_ok_non_empty(d: DocView, a: ArgsView)
    ensures
        resolve_spec(d, a) matches Ok(c) ==> c.model.len() > 0 && c.api_key.len() > 0,
{
}

impl Config {
    /// Merges the persisted document with the command-line overrides into a
    /// validated runtime configuration, exactly as [`resolve_spec`]
    /// describes.
    pub fn from_config_file(config_file: &ConfigFile, args: &Args) -> (r: Result<
        Config,
        ConfigError,
    >)
        ensures
            (match r {
                Ok(c) => resolve_spec(config_file@, args@) == Ok::<ConfigView, ConfigErrorView>(c@),
                Err(e) => resolve_spec(config_file@, args@) == Err::<ConfigView, ConfigErrorView>(
                    e@,
                ),
            }),
    {
        let provider = match &config_file.provider {
            None => {
                return Err(ConfigError::NoProviderSelected);
            },
            Some(p) => *p,
        };

        let providers = match &config_file.providers {
            None => {
                return Err(ConfigError::NoProvidersConfigured);
            },
            Some(t) => t,
        };
        if providers.len() == 0 {
            return Err(ConfigError::NoProvidersConfigured);
        }

        let provider_config = match crate::configs::config_file::table_lookup(
            providers,
            provider,
        ) {
            None => {
                let available = crate::configs::config_file::table_keys_vec(providers);
                return Err(ConfigError::UnknownProvider { provider, available });
            },
            Some(pc) => pc,
        };

        if args.api_key.is_none() && is_blank(provider_config.api_key.as_str()) {
            return Err(ConfigError::MissingApiKey { provider });
        }

        let mut config_builder = ConfigBuilder::new();
        config_builder.provider(provider);
        config_builder.model(provider_config.model);
        config_builder.api_key(provider_config.api_key);

        if let Some(persona) = &config_file.persona {
            config_builder.persona(*persona);
        }
        config_builder.auto_copy(config_file.auto_copy);
        config_builder.log_file(
            match &config_file.log_file {
                Some(p) => Some(p.clone()),
                None => None,
            },
        );

        if let Some(model) = &args.model {
            config_builder.model(model.clone());
        }
        if let Some(persona) = &args.persona {
            config_builder.persona(*persona);
        }
        if let Some(api_key) = &args.api_key {
            config_builder.api_key(api_key.clone());
        }

        match config_builder.build() {
            Ok(c) => Ok(c),
            Err(_) => Err(ConfigError::BuildValidationFailed),
        }
    }
}

} // verus!

// Properties of resolution, stated over `resolve_spec`, which
// `Config::from_config_file` returns exactly.
verus! {

/// With no overrides, a document whose selected provider is present in the
/// table with a non-blank stored API key and a non-empty stored model
/// resolves successfully, and the resolved model and API key equal the
/// stored values.  (A stored empty model instead fails validation, so that a
/// successful resolution is never partially empty.)
pub proof fn lemma_resolve_uses_stored_values(d: DocView, a: ArgsView)
    requires
        a.no_overrides(),
        d.provider is Some,
        d.providers is Some,
        table_contains(d.providers->0, d.provider->0),
        !spec_is_blank(table_get(d.providers->0, d.provider->0)->0.api_key),
        table_get(d.providers->0, d.provider->0)->0.model.len() > 0,
    ensures
        resolve_spec(d, a) is Ok,
        resolve_spec(d, a)->Ok_0.model == table_get(d.providers->0, d.provider->0)->0.model,
        resolve_spec(d, a)->Ok_0.api_key == table_get(d.providers->0, d.provider->0)->0.api_key,
{
    assert(d.providers->0.len() > 0);
    let pc = table_get(d.providers->0, d.provider->0)->0;
    assert(!spec_is_blank(pc.api_key));
    assert(pc.api_key.len() > 0) by {
        if pc.api_key.len() == 0 {
            assert(spec_is_blank(pc.api_key));
        }
    }
}

/// Override precedence for the model: whenever a model override is given and
/// resolution succeeds, the resolved model equals the override, regardless
/// of the stored value.
pub proof fn lemma_model_override_wins(d: DocView, a: ArgsView)
    requires
        a.model is Some,
        resolve_spec(d, a) is Ok,
    ensures
        resolve_spec(d, a)->Ok_0.model == a.model->0,
{
}

/// Resolution fails with `MissingApiKey` exactly when the document passes
/// the provider checks, the stored API key is empty or whitespace, and no
/// override supplies one.
pub proof fn lemma_missing_api_key_iff(d: DocView, a: ArgsView)
    ensures
        (resolve_spec(d, a) matches Err(e) && e is MissingApiKey) <==> (d.provider is Some
            && d.providers is Some && table_contains(d.providers->0, d.provider->0)
            && spec_is_blank(table_get(d.providers->0, d.provider->0)->0.api_key)
            && a.api_key is None),
        (resolve_spec(d, a) matches Err(e) && e is MissingApiKey) ==> resolve_spec(d, a)
            == Err::<ConfigView, ConfigErrorView>(
            ConfigErrorView::MissingApiKey { provider: d.provider->0 },
        ),
{
    if d.provider is Some && d.providers is Some && table_contains(
        d.providers->0,
        d.provider->0,
    ) {
        assert(d.providers->0.len() > 0);
    }
}

/// Resolution fails with `UnknownProvider` exactly when a provider is
/// selected and the non-empty table has no entry for it, and the error then
/// enumerates every key the table holds.
pub proof fn lemma_unknown_provider_iff(d: DocView, a: ArgsView)
    ensures
        (resolve_spec(d, a) matches Err(e) && e is UnknownProvider) <==> (d.provider is Some
            && d.providers is Some && d.providers->0.len() > 0 && !table_contains(
            d.providers->0,
            d.provider->0,
        )),
        (resolve_spec(d, a) matches Err(e) && e is UnknownProvider) ==> resolve_spec(d, a)
            == Err::<ConfigView, ConfigErrorView>(
            ConfigErrorView::UnknownProvider {
                provider: d.provider->0,
                available: table_keys(d.providers->0),
            },
        ),
{
}

} // verus!
