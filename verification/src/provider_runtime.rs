//! Which provider a run uses, and the per-model health record kept in
//! `<workdir>/.sacode/model-health.json`.

use vstd::prelude::*;
use crate::provider_config::{ProviderCatalog, ProviderConfigStore, NamedProviderConfig, named_view, current_entry, loaded_well_formed};
use crate::name_map::{pairs_view, keys_sorted, lists, pairs_map, listing, lemma_listing, lemma_sorted_lists, get_named, put_named};

verus! {

/// The health of one model of one provider.
#[derive(Debug)]
pub struct ModelHealthEntry {
    pub success_count: u32,
    pub failure_count: u32,
    pub last_status: String,
    pub last_error: Option<String>,
    pub updated_at: u64,
}

/// Health entries by `provider/model`, in key order.
#[derive(Debug)]
pub struct ModelHealthStore {
    pub entries: Vec<(String, ModelHealthEntry)>,
}

pub ghost struct HealthView {
    pub success_count: u32,
    pub failure_count: u32,
    pub last_status: Seq<char>,
    pub last_error: Option<Seq<char>>,
    pub updated_at: u64,
}

impl View for ModelHealthEntry {
    type V = HealthView;

    open spec fn view(&self) -> HealthView {
        HealthView {
            success_count: self.success_count,
            failure_count: self.failure_count,
            last_status: self.last_status@,
            last_error: crate::task_store::opt_view(self.last_error),
            updated_at: self.updated_at,
        }
    }
}

impl ModelHealthStore {
    /// The entries are in key order, each key once.
    pub open spec fn well_formed(&self) -> bool {
        keys_sorted(pairs_view(self.entries@))
    }

    /// The entries as a map.
    pub open spec fn health_map(&self) -> Map<Seq<char>, HealthView> {
        pairs_map(pairs_view(self.entries@))
    }

    /// A store with no entries.
    pub fn empty() -> (r: Self)
        ensures
            r.well_formed(),
            r.health_map() == Map::<Seq<char>, HealthView>::empty(),
    {
        let r = ModelHealthStore { entries: Vec::new() };
        assert(pairs_view(r.entries@) =~= Seq::<(Seq<char>, HealthView)>::empty());
        r
    }
}

/// The key of a model: `provider/model`.
pub open spec fn health_key(provider_name: Seq<char>, model_name: Seq<char>) -> Seq<char> {
    provider_name + "/"@ + model_name
}

/// A model never seen before.
pub open spec fn fresh_health() -> HealthView {
    HealthView {
        success_count: 0,
        failure_count: 0,
        last_status: Seq::empty(),
        last_error: None,
        updated_at: 0,
    }
}

/// The entry after one more call of the model at time `now`.
pub open spec fn recorded(h: HealthView, success: bool, error: Option<Seq<char>>, now: u64) -> HealthView {
    if success {
        HealthView {
            success_count: (h.success_count + 1) as u32,
            last_status: "healthy"@,
            last_error: None,
            updated_at: now,
            ..h
        }
    } else {
        HealthView {
            failure_count: (h.failure_count + 1) as u32,
            last_status: "unhealthy"@,
            last_error: error,
            updated_at: now,
            ..h
        }
    }
}

/// The health map after one more call of the model `k` at time `now`.
pub open spec fn health_after(
    m: Map<Seq<char>, HealthView>,
    k: Seq<char>,
    success: bool,
    error: Option<Seq<char>>,
    now: u64,
) -> Map<Seq<char>, HealthView> {
    let h = if m.contains_key(k) { m[k] } else { fresh_health() };
    m.insert(k, recorded(h, success, error, now))
}

/// The current provider of a loaded catalog.
pub fn resolve_named_provider(catalog: &Option<ProviderCatalog>) -> (r: Option<NamedProviderConfig>)
    requires
        loaded_well_formed(*catalog),
    ensures
        named_view(r) == match catalog {
            Some(c) => current_entry(c@),
            None => None,
        },
{
    let store = ProviderConfigStore::new("");
    store.load_current(catalog)
}

/// The view of an optional string slice.
pub open spec fn opt_str_view(e: Option<&str>) -> Option<Seq<char>> {
    match e {
        Some(s) => Some(s@),
        None => None,
    }
}

fn opt_str(e: Option<&str>) -> (r: Option<String>)
    ensures
        crate::task_store::opt_view(r) == opt_str_view(e),
{
    match e {
        Some(s) => Some(String::from_str(s)),
        None => None,
    }
}

/// Records one call of a model at time `now`: a success counts as healthy
/// and clears the last error; a failure counts as unhealthy and keeps the
/// error.
pub fn record_model_health_at(
    store: &mut ModelHealthStore,
    provider_name: &str,
    model_name: &str,
    success: bool,
    error: Option<&str>,
    now: u64,
)
    requires
        old(store).well_formed(),
        ({
            let h = if old(store).health_map().contains_key(health_key(provider_name@, model_name@)) {
                old(store).health_map()[health_key(provider_name@, model_name@)]
            } else {
                fresh_health()
            };
            if success { h.success_count < u32::MAX } else { h.failure_count < u32::MAX }
        }),
    ensures
        final(store).well_formed(),
        final(store).health_map() == health_after(
            old(store).health_map(),
            health_key(provider_name@, model_name@),
            success,
            opt_str_view(error),
            now,
        ),
{
    let mut key = String::from_str(provider_name);
    key.append("/");
    key.append(model_name);
    let ghost m = store.health_map();
    proof {
        lemma_sorted_lists(pairs_view(store.entries@));
    }
    let current = match get_named(&store.entries, key.as_str(), Ghost(m)) {
        Some(h) => ModelHealthEntry {
            success_count: h.success_count,
            failure_count: h.failure_count,
            last_status: h.last_status.clone(),
            last_error: crate::task_store::copy_opt_string(&h.last_error),
            updated_at: h.updated_at,
        },
        None => ModelHealthEntry {
            success_count: 0,
            failure_count: 0,
            last_status: String::new(),
            last_error: None,
            updated_at: 0,
        },
    };
    let updated = if success {
        ModelHealthEntry {
            success_count: current.success_count + 1,
            failure_count: current.failure_count,
            last_status: String::from_str("healthy"),
            last_error: None,
            updated_at: now,
        }
    } else {
        ModelHealthEntry {
            success_count: current.success_count,
            failure_count: current.failure_count + 1,
            last_status: String::from_str("unhealthy"),
            last_error: opt_str(error),
            updated_at: now,
        }
    };
    let ghost kv = key@;
    let ghost uv = updated@;
    put_named(&mut store.entries, key, updated, Ghost(m));
    proof {
        crate::name_map::lemma_lists_pairs_map(pairs_view(store.entries@), m.insert(kv, uv));
    }
}

/// Records one call of a model, stamped with the current Unix time.
pub fn record_model_health(
    store: &mut ModelHealthStore,
    provider_name: &str,
    model_name: &str,
    success: bool,
    error: Option<&str>,
)
    requires
        old(store).well_formed(),
        ({
            let h = if old(store).health_map().contains_key(health_key(provider_name@, model_name@)) {
                old(store).health_map()[health_key(provider_name@, model_name@)]
            } else {
                fresh_health()
            };
            if success { h.success_count < u32::MAX } else { h.failure_count < u32::MAX }
        }),
    ensures
        final(store).well_formed(),
        exists|now: u64| final(store).health_map() == #[trigger] health_after(
            old(store).health_map(),
            health_key(provider_name@, model_name@),
            success,
            opt_str_view(error),
            now,
        ),
{
    let now = crate::clock::current_unix_ts();
    record_model_health_at(store, provider_name, model_name, success, error, now);
}


/// The model health file of a working directory.
pub fn model_health_path(workdir: &str) -> (r: String)
    ensures
        r@ == crate::paths::path_join(workdir@, ".sacode/model-health.json"@),
{
    crate::paths::join_path(workdir, ".sacode/model-health.json")
}


// ---------------------------------------------------------------------
// The fallback provider
// ---------------------------------------------------------------------

/// The model used when no provider is configured: `SACODE_MODEL`, else
/// `DEFAULT_MODEL`, else `gpt-5.4`.
pub fn fallback_model_name(sacode_model: Option<String>, default_model: Option<String>) -> (r: String)
    ensures
        r@ == match sacode_model {
            Some(m) => m@,
            None => match default_model {
                Some(d) => d@,
                None => "gpt-5.4"@,
            },
        },
{
    match sacode_model {
        Some(m) => m,
        None => match default_model {
            Some(d) => d,
            None => String::from_str("gpt-5.4"),
        },
    }
}

/// The kind of provider a bare model name is sent to.
#[derive(Debug, Clone, Copy, PartialEq, Eq, Structural)]
pub enum PresetKind {
    DeepSeek,
    Mimo,
    LongCat,
    Ollama,
    OpenAi,
}

/// The kind of provider for a model name: by its prefix (`deepseek`,
/// `mimo`, `ollama`), by the names it contains (`longcat` in any case,
/// `qwen`), else OpenAI.
pub open spec fn preset_kind_of(model: Seq<char>) -> PresetKind {
    if crate::text::starts_with(model, "deepseek"@) {
        PresetKind::DeepSeek
    } else if crate::text::starts_with(model, "mimo"@) {
        PresetKind::Mimo
    } else if crate::text::contains(crate::text::unicode_lowercase(model), "longcat"@) {
        PresetKind::LongCat
    } else if crate::text::starts_with(model, "ollama"@) || crate::text::contains(model, "qwen"@) {
        PresetKind::Ollama
    } else {
        PresetKind::OpenAi
    }
}

/// Executable `preset_kind_of`.
pub fn preset_kind_for_model(model: &str) -> (r: PresetKind)
    ensures
        r == preset_kind_of(model@),
{
    let c = crate::text::to_chars(model);
    if crate::text::starts_with_chars(c.as_slice(), crate::text::to_chars("deepseek").as_slice()) {
        PresetKind::DeepSeek
    } else if crate::text::starts_with_chars(c.as_slice(), crate::text::to_chars("mimo").as_slice()) {
        PresetKind::Mimo
    } else if crate::text::contains_str(crate::text::to_chars(crate::text::to_lowercase(model).as_str()).as_slice(), "longcat") {
        PresetKind::LongCat
    } else if crate::text::starts_with_chars(c.as_slice(), crate::text::to_chars("ollama").as_slice())
        || crate::text::contains_str(c.as_slice(), "qwen") {
        PresetKind::Ollama
    } else {
        PresetKind::OpenAi
    }
}

/// A provider from the provider file can carry a run when it has a base
/// URL, an API key and a model.
pub fn usable_candidate(named: &NamedProviderConfig) -> (r: bool)
    ensures
        r == (named.config.base_url@.len() > 0 && named.config.api_key@.len() > 0 && named.config.model@.len() > 0),
{
    named.config.base_url.unicode_len() > 0 && named.config.api_key.unicode_len() > 0 && named.config.model.unicode_len() > 0
}

} // verus!
