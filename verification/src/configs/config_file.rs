//! The persisted configuration document and its per-field update
//! operations.

use vstd::prelude::*;

use crate::configs::types::{ConfigError, ConfigErrorView, ProviderConfig, ProviderConfigView};
use crate::persona::Persona;
use crate::provider::Provider;

verus! {

/// The configuration document as persisted on disk.  The document itself
/// does not require `provider` to have a matching entry in `providers`;
/// that is enforced at resolution time.
#[derive(Debug)]
pub struct ConfigFile {
    pub provider: Option<Provider>,
    pub providers: Option<Vec<(Provider, ProviderConfig)>>,
    pub persona: Option<Persona>,
    pub auto_copy: bool,
    pub log_file: Option<String>,
}

/// What a [`ConfigFile`] holds: the provider table as a sequence of keyed
/// entries, in document order.
#[verifier::ext_equal]
pub ghost struct DocView {
    pub provider: Option<Provider>,
    pub providers: Option<Seq<(Provider, ProviderConfigView)>>,
    pub persona: Option<Persona>,
    pub auto_copy: bool,
    pub log_file: Option<Seq<char>>,
}

/// The provider table of a document, as plain values.
pub open spec fn table_view(t: Seq<(Provider, ProviderConfig)>) -> Seq<(Provider, ProviderConfigView)> {
    t.map_values(|e: (Provider, ProviderConfig)| (e.0, e.1@))
}

impl View for ConfigFile {
    type V = DocView;

    open spec fn view(&self) -> DocView {
        DocView {
            provider: self.provider,
            providers: match self.providers {
                Some(t) => Some(table_view(t@)),
                None => None,
            },
            persona: self.persona,
            auto_copy: self.auto_copy,
            log_file: match self.log_file {
                Some(p) => Some(p@),
                None => None,
            },
        }
    }
}

/// The settings stored for provider `p`: those of the first entry keyed by
/// `p`, if any.
pub open spec fn table_get(t: Seq<(Provider, ProviderConfigView)>, p: Provider) -> Option<
    ProviderConfigView,
>
    decreases t.len(),
{
    if t.len() == 0 {
        None
    } else if t[0].0 == p {
        Some(t[0].1)
    } else {
        table_get(t.drop_first(), p)
    }
}

/// Whether the table has an entry keyed by `p`.
pub open spec fn table_contains(t: Seq<(Provider, ProviderConfigView)>, p: Provider) -> bool {
    table_get(t, p) is Some
}

/// The keys of the table, in document order.
pub open spec fn table_keys(t: Seq<(Provider, ProviderConfigView)>) -> Seq<Provider> {
    t.map_values(|e: (Provider, ProviderConfigView)| e.0)
}

/// The table with the model of every entry keyed by `p` replaced by `m`.
/// Under unique keys this touches exactly one entry.
pub open spec fn table_with_model(
    t: Seq<(Provider, ProviderConfigView)>,
    p: Provider,
    m: Seq<char>,
) -> Seq<(Provider, ProviderConfigView)> {
    t.map_values(
        |e: (Provider, ProviderConfigView)|
            if e.0 == p {
                (e.0, ProviderConfigView { api_key: e.1.api_key, model: m })
            } else {
                e
            },
    )
}

/// The table with the API key of every entry keyed by `p` replaced by `k`.
/// Under unique keys this touches exactly one entry.
pub open spec fn table_with_api_key(
    t: Seq<(Provider, ProviderConfigView)>,
    p: Provider,
    k: Seq<char>,
) -> Seq<(Provider, ProviderConfigView)> {
    t.map_values(
        |e: (Provider, ProviderConfigView)|
            if e.0 == p {
                (e.0, ProviderConfigView { api_key: k, model: e.1.model })
            } else {
                e
            },
    )
}

/// Entry keys are pairwise distinct.
pub open spec fn table_unique_keys(t: Seq<(Provider, ProviderConfigView)>) -> bool {
    forall|i: int, j: int| 0 <= i < j < t.len() ==> t[i].0 != t[j].0
}

impl DocView {
    /// Well-formedness of the document: the provider table, when present,
    /// keys each provider at most once.
    pub open spec fn wf(self) -> bool {
        match self.providers {
            Some(t) => table_unique_keys(t),
            None => true,
        }
    }
}

/// `update_provider` on the document: selects `p` as the active provider if
/// the table has an entry for it; the document is unchanged on failure.
pub open spec fn spec_update_provider(d: DocView, p: Provider) -> Result<DocView, ConfigErrorView> {
    match d.providers {
        None => Err(ConfigErrorView::NoProvidersConfigured),
        Some(t) => if !table_contains(t, p) {
            Err(ConfigErrorView::UnknownProvider { provider: p, available: table_keys(t) })
        } else {
            Ok(DocView { provider: Some(p), ..d })
        },
    }
}

/// `update_model` on the document: replaces the stored model of the
/// currently selected provider; the document is unchanged on failure.
pub open spec fn spec_update_model(d: DocView, m: Seq<char>) -> Result<DocView, ConfigErrorView> {
    match d.provider {
        None => Err(ConfigErrorView::NoProviderSelected),
        Some(p) => match d.providers {
            None => Err(ConfigErrorView::NoProvidersConfigured),
            Some(t) => if !table_contains(t, p) {
                Err(ConfigErrorView::UnknownProvider { provider: p, available: table_keys(t) })
            } else {
                Ok(DocView { providers: Some(table_with_model(t, p, m)), ..d })
            },
        },
    }
}

/// `update_api_key` on the document: replaces the stored API key of the
/// currently selected provider; the document is unchanged on failure.
pub open spec fn spec_update_api_key(d: DocView, k: Seq<char>) -> Result<DocView, ConfigErrorView> {
    match d.provider {
        None => Err(ConfigErrorView::NoProviderSelected),
        Some(p) => match d.providers {
            None => Err(ConfigErrorView::NoProvidersConfigured),
            Some(t) => if !table_contains(t, p) {
                Err(ConfigErrorView::UnknownProvider { provider: p, available: table_keys(t) })
            } else {
                Ok(DocView { providers: Some(table_with_api_key(t, p, k)), ..d })
            },
        },
    }
}

/// Looking a key up anywhere in the table is the same as looking it up after
/// skipping a key-free prefix.
proof fn lemma_table_get_skip(t: Seq<(Provider, ProviderConfigView)>, p: Provider, i: int)
    requires
        0 <= i <= t.len(),
        forall|j: int| 0 <= j < i ==> t[j].0 != p,
    ensures
        table_get(t, p) == table_get(t.skip(i), p),
    decreases i,
{
    if i > 0 {
        assert(t.skip(i - 1).drop_first() =~= t.skip(i));
        lemma_table_get_skip(t, p, i - 1);
        assert(t.skip(i - 1)[0] == t[i - 1]);
    } else {
        assert(t.skip(0) =~= t);
    }
}

/// The index of the entry keyed by `p`, if any.
fn table_find(t: &Vec<(Provider, ProviderConfig)>, p: Provider) -> (r: Option<usize>)
    ensures
        match r {
            Some(i) => i < t@.len() && t@[i as int].0 == p && table_get(table_view(t@), p)
                == Some(t@[i as int].1@) && (forall|j: int| 0 <= j < i ==> t@[j].0 != p),
            None => table_get(table_view(t@), p) is None,
        },
{
    let ghost tv = table_view(t@);
    let n = t.len();
    let mut i: usize = 0;
    while i < n
        invariant
            n == t@.len(),
            tv == table_view(t@),
            0 <= i <= n,
            forall|j: int| 0 <= j < i ==> t@[j].0 != p,
        decreases n - i,
    {
        if t[i].0 == p {
            proof {
                lemma_table_get_skip(tv, p, i as int);
                assert(tv.skip(i as int)[0] == tv[i as int]);
            }
            return Some(i);
        }
        i = i + 1;
    }
    proof {
        lemma_table_get_skip(tv, p, n as int);
        assert(tv.skip(n as int) =~= Seq::<(Provider, ProviderConfigView)>::empty());
    }
    None
}

/// The settings stored for provider `p`, as a fresh value.
pub fn table_lookup(t: &Vec<(Provider, ProviderConfig)>, p: Provider) -> (r: Option<
    ProviderConfig,
>)
    ensures
        (match r {
            Some(pc) => table_get(table_view(t@), p) == Some(pc@),
            None => table_get(table_view(t@), p) is None,
        }),
{
    match table_find(t, p) {
        Some(i) => Some(
            ProviderConfig {
                api_key: t[i].1.api_key.clone(),
                model: t[i].1.model.clone(),
            },
        ),
        None => None,
    }
}

/// The keys of the table, in document order, as a fresh vector.
pub fn table_keys_vec(t: &Vec<(Provider, ProviderConfig)>) -> (r: Vec<Provider>)
    ensures
        r@ == table_keys(table_view(t@)),
{
    let mut keys: Vec<Provider> = Vec::new();
    let n = t.len();
    let mut i: usize = 0;
    while i < n
        invariant
            n == t@.len(),
            0 <= i <= n,
            keys@ =~= table_keys(table_view(t@)).take(i as int),
        decreases n - i,
    {
        keys.push(t[i].0);
        assert(keys@ =~= table_keys(table_view(t@)).take(i + 1));
        i = i + 1;
    }
    assert(table_keys(table_view(t@)).take(n as int) =~= table_keys(table_view(t@)));
    keys
}

impl ConfigFile {
    /// Selects `provider` as the active provider, verifying first that the
    /// provider table has an entry for it.  On failure the document is
    /// unchanged and the error lists the available keys.
    pub fn update_provider(&mut self, provider: &Provider) -> (r: Result<(), ConfigError>)
        ensures
            (match r {
                Ok(_) => spec_update_provider(old(self)@, *provider) == Ok::<
                    DocView,
                    ConfigErrorView,
                >(final(self)@),
                Err(e) => final(self)@ == old(self)@ && spec_update_provider(old(self)@, *provider)
                    == Err::<DocView, ConfigErrorView>(e@),
            }),
            final(self)@.wf() == old(self)@.wf(),
    {
        match &self.providers {
            None => Err(ConfigError::NoProvidersConfigured),
            Some(t) => {
                if table_find(t, *provider).is_none() {
                    let available = table_keys_vec(t);
                    return Err(
                        ConfigError::UnknownProvider { provider: *provider, available },
                    );
                }
                self.provider = Some(*provider);
                Ok(())
            },
        }
    }

    /// Replaces the stored model of the currently selected provider.  Fails
    /// if no provider is selected or the selected provider has no entry; the
    /// document is unchanged on failure.
    pub fn update_model(&mut self, model_name: &str) -> (r: Result<(), ConfigError>)
        requires
            old(self)@.wf(),
        ensures
            (match r {
                Ok(_) => spec_update_model(old(self)@, model_name@) == Ok::<
                    DocView,
                    ConfigErrorView,
                >(final(self)@),
                Err(e) => final(self)@ == old(self)@ && spec_update_model(old(self)@, model_name@)
                    == Err::<DocView, ConfigErrorView>(e@),
            }),
            final(self)@.wf(),
    {
        let provider = match &self.provider {
            None => {
                return Err(ConfigError::NoProviderSelected);
            },
            Some(p) => *p,
        };
        match &mut self.providers {
            None => Err(ConfigError::NoProvidersConfigured),
            Some(t) => {
                let ghost tv = table_view(t@);
                proof {
                    assert(old(self)@.providers == Some(tv));
                    assert(table_unique_keys(tv));
                }
                match table_find(t, provider) {
                    None => {
                        let available = table_keys_vec(t);
                        Err(ConfigError::UnknownProvider { provider, available })
                    },
                    Some(i) => {
                        proof {
                            assert(tv[i as int].0 == provider);
                        }
                        let api_key = t[i].1.api_key.clone();
                        t[i] = (
                            provider,
                            ProviderConfig { api_key, model: model_name.to_owned() },
                        );
                        proof {
                            let updated = table_with_model(tv, provider, model_name@);
                            assert forall|j: int| 0 <= j < tv.len() implies table_view(t@)[j]
                                == updated[j] by {
                                if j < i {
                                    assert(tv[j].0 != tv[i as int].0);
                                } else if j > i {
                                    assert(tv[i as int].0 != tv[j].0);
                                }
                            }
                            assert(table_view(t@) =~~= updated);
                        }
                        Ok(())
                    },
                }
            },
        }
    }

    /// Replaces the stored API key of the currently selected provider.
    /// Fails if no provider is selected or the selected provider has no
    /// entry; the document is unchanged on failure.
    pub fn update_api_key(&mut self, api_key: &str) -> (r: Result<(), ConfigError>)
        requires
            old(self)@.wf(),
        ensures
            (match r {
                Ok(_) => spec_update_api_key(old(self)@, api_key@) == Ok::<
                    DocView,
                    ConfigErrorView,
                >(final(self)@),
                Err(e) => final(self)@ == old(self)@ && spec_update_api_key(old(self)@, api_key@)
                    == Err::<DocView, ConfigErrorView>(e@),
            }),
            final(self)@.wf(),
    {
        let provider = match &self.provider {
            None => {
                return Err(ConfigError::NoProviderSelected);
            },
            Some(p) => *p,
        };
        match &mut self.providers {
            None => Err(ConfigError::NoProvidersConfigured),
            Some(t) => {
                let ghost tv = table_view(t@);
                proof {
                    assert(old(self)@.providers == Some(tv));
                    assert(table_unique_keys(tv));
                }
                match table_find(t, provider) {
                    None => {
                        let available = table_keys_vec(t);
                        Err(ConfigError::UnknownProvider { provider, available })
                    },
                    Some(i) => {
                        proof {
                            assert(tv[i as int].0 == provider);
                        }
                        let model = t[i].1.model.clone();
                        t[i] = (
                            provider,
                            ProviderConfig { api_key: api_key.to_owned(), model },
                        );
                        proof {
                            let updated = table_with_api_key(tv, provider, api_key@);
                            assert forall|j: int| 0 <= j < tv.len() implies table_view(t@)[j]
                                == updated[j] by {
                                if j < i {
                                    assert(tv[j].0 != tv[i as int].0);
                                } else if j > i {
                                    assert(tv[i as int].0 != tv[j].0);
                                }
                            }
                            assert(table_view(t@) =~~= updated);
                        }
                        Ok(())
                    },
                }
            },
        }
    }
}

} // verus!

// Properties of the update operations, stated over their spec functions,
// which the executable methods return exactly.
verus! {

/// A provider update to a name with no entry in the table fails; the
/// executable method leaves the document unchanged on every failure.
pub proof fn lemma_update_provider_absent_fails(d: DocView, p: Provider)
    requires
        d.providers is None || !table_contains(d.providers->0, p),
    ensures
        spec_update_provider(d, p) is Err,
{
}

/// A model update leaves every other field of the document unchanged, and
/// within the table changes only the selected provider's entry, whose stored
/// model becomes the new name.
pub proof fn lemma_update_model_changes_only_model(d: DocView, m: Seq<char>)
    requires
        d.wf(),
        spec_update_model(d, m) is Ok,
    ensures
        ({
            let d2 = spec_update_model(d, m)->Ok_0;
            &&& d2.provider == d.provider
            &&& d2.persona == d.persona
            &&& d2.auto_copy == d.auto_copy
            &&& d2.log_file == d.log_file
            &&& d2.providers is Some
            &&& d.providers is Some
            &&& d2.providers->0.len() == d.providers->0.len()
            &&& table_keys(d2.providers->0) == table_keys(d.providers->0)
            &&& table_get(d2.providers->0, d.provider->0) matches Some(pc) && pc.model == m
                && pc.api_key == table_get(d.providers->0, d.provider->0)->0.api_key
            &&& forall|q: Provider| q != d.provider->0 ==> table_get(d2.providers->0, q)
                == table_get(d.providers->0, q)
        }),
{
    let p = d.provider->0;
    let t = d.providers->0;
    let t2 = table_with_model(t, p, m);
    assert(table_keys(t2) =~= table_keys(t));
    lemma_table_get_with_model(t, p, m);
}

/// Looking up any key in a model-updated table: the updated key's entry has
/// the new model and its old API key; every other key's entry is unchanged.
proof fn lemma_table_get_with_model(t: Seq<(Provider, ProviderConfigView)>, p: Provider, m: Seq<char>)
    ensures
        table_contains(t, p) ==> table_get(table_with_model(t, p, m), p) == Some(
            ProviderConfigView { api_key: table_get(t, p)->0.api_key, model: m },
        ),
        !table_contains(t, p) ==> table_get(table_with_model(t, p, m), p) is None,
        forall|q: Provider| q != p ==> table_get(table_with_model(t, p, m), q) == table_get(t, q),
    decreases t.len(),
{
    if t.len() > 0 {
        lemma_table_get_with_model(t.drop_first(), p, m);
        let t2 = table_with_model(t, p, m);
        assert(t2.drop_first() =~= table_with_model(t.drop_first(), p, m));
        assert(t2[0].0 == t[0].0);
        assert forall|q: Provider| q != p implies table_get(t2, q) == table_get(t, q) by {
            if t[0].0 == q {
                assert(t2[0] == t[0]);
                assert(table_get(t2, q) == Some(t2[0].1));
            } else {
                assert(table_get(t2, q) == table_get(t2.drop_first(), q));
                assert(table_get(table_with_model(t.drop_first(), p, m), q) == table_get(
                    t.drop_first(),
                    q,
                ));
                assert(table_get(t, q) == table_get(t.drop_first(), q));
            }
        }
    }
}

} // verus!
