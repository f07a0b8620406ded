//! The product path: the gateway-backed identity provider comes first, and
//! custom providers are the fallback.  Reading the identity session and
//! resolving providers happens outside; here is what is made of them.

use vstd::prelude::*;
use crate::text::{trim, trim_str, chars_eq, to_chars};
use crate::provider_config::{NamedProviderConfig, ProviderConfig, ProviderView};
use crate::task_store::strings_view;

verus! {

/// The product is usable when the gateway provider or some authorized
/// custom provider resolved.
pub fn product_ready(gateway: &Option<NamedProviderConfig>, authorized: &Option<NamedProviderConfig>) -> (r: bool)
    ensures
        r == (gateway.is_some() || authorized.is_some()),
{
    gateway.is_some() || authorized.is_some()
}

/// The session's default model, unless it is blank.
pub fn identity_default_model(session: &Option<(Vec<String>, String)>) -> (r: Option<String>)
    ensures
        match session {
            Some((_, d)) => if trim(d@).len() == 0 {
                r is None
            } else {
                r is Some && r->0@ == d@
            },
            None => r is None,
        },
{
    match session {
        Some((_, d)) => {
            if trim_str(d.as_str()).as_str().unicode_len() == 0 {
                None
            } else {
                Some(d.clone())
            }
        },
        None => None,
    }
}

/// The models of the session other than the default one, each paired with
/// the provider name.
pub open spec fn other_models(models: Seq<Seq<char>>, default_model: Seq<char>, provider: Seq<char>) -> Seq<(Seq<char>, Seq<char>)>
    decreases models.len(),
{
    if models.len() == 0 {
        Seq::empty()
    } else {
        let rest = other_models(models.drop_last(), default_model, provider);
        if models.last() != default_model {
            rest.push((provider, models.last()))
        } else {
            rest
        }
    }
}

/// The session's entries: the default model first (unless blank), then the
/// other models.
pub open spec fn session_entries(models: Seq<Seq<char>>, default_model: Seq<char>, provider: Seq<char>) -> Seq<(Seq<char>, Seq<char>)> {
    let first: Seq<(Seq<char>, Seq<char>)> = if trim(default_model).len() > 0 {
        seq![(provider, default_model)]
    } else {
        Seq::empty()
    };
    first + other_models(models, default_model, provider)
}

/// The entry of the resolved product provider, if any.
pub open spec fn product_entry(product: Option<NamedProviderConfig>) -> Seq<(Seq<char>, Seq<char>)> {
    match product {
        Some(p) => seq![(p.name@, p.config.model@)],
        None => Seq::empty(),
    }
}

/// The first entries of the `/models` catalog: the session's models under
/// the gateway provider (named `sa-ai` when it did not resolve); when there
/// are none, the model of the resolved product provider.
pub open spec fn leading_entries(
    session: Option<(Seq<Seq<char>>, Seq<char>)>,
    gateway_name: Option<Seq<char>>,
    product: Option<NamedProviderConfig>,
) -> Seq<(Seq<char>, Seq<char>)> {
    match session {
        Some((models, d)) => {
            let provider = match gateway_name {
                Some(n) => n,
                None => "sa-ai"@,
            };
            let e = session_entries(models, d, provider);
            if e.len() > 0 {
                e
            } else {
                product_entry(product)
            }
        },
        None => product_entry(product),
    }
}

/// Whether some entry names this provider.
pub open spec fn names_provider(entries: Seq<(Seq<char>, Seq<char>)>, name: Seq<char>) -> bool {
    exists|j: int| 0 <= j < entries.len() && #[trigger] entries[j].0 == name
}

/// The other configured providers, in catalog order, each with its model:
/// those that no leading entry names.
pub open spec fn other_entries(
    providers: Seq<(Seq<char>, ProviderView)>,
    lead: Seq<(Seq<char>, Seq<char>)>,
) -> Seq<(Seq<char>, Seq<char>)>
    decreases providers.len(),
{
    if providers.len() == 0 {
        Seq::empty()
    } else {
        let rest = other_entries(providers.drop_last(), lead);
        let (n, p) = providers.last();
        if names_provider(lead, n) { rest } else { rest.push((n, p.model)) }
    }
}

/// The `/models` catalog: the gateway's models first (or the product
/// provider's model when the gateway has none), then the models of the
/// other configured providers.
pub open spec fn model_entries(
    session: Option<(Seq<Seq<char>>, Seq<char>)>,
    gateway_name: Option<Seq<char>>,
    product: Option<NamedProviderConfig>,
    providers: Seq<(Seq<char>, ProviderView)>,
) -> Seq<(Seq<char>, Seq<char>)> {
    let lead = leading_entries(session, gateway_name, product);
    lead + other_entries(providers, lead)
}

/// The views of name pairs.
pub open spec fn pair_views(v: Seq<(String, String)>) -> Seq<(Seq<char>, Seq<char>)> {
    v.map_values(|p: (String, String)| (p.0@, p.1@))
}

/// The view of a session: its models and default model.
pub open spec fn session_view(s: Option<(Vec<String>, String)>) -> Option<(Seq<Seq<char>>, Seq<char>)> {
    match s {
        Some((m, d)) => Some((strings_view(m@), d@)),
        None => None,
    }
}

fn push_pair(out: &mut Vec<(String, String)>, a: String, b: String)
    ensures
        pair_views(final(out)@) == pair_views(old(out)@).push((a@, b@)),
{
    let ghost prev = out@;
    out.push((a, b));
    proof {
        prev.lemma_push_map_commute(|p: (String, String)| (p.0@, p.1@), (a, b));
    }
}

/// Executable `leading_entries`.
fn leading_model_entries(
    session: &Option<(Vec<String>, String)>,
    gateway_name: &Option<String>,
    product: &Option<NamedProviderConfig>,
) -> (r: Vec<(String, String)>)
    ensures
        pair_views(r@) == leading_entries(
            session_view(*session),
            crate::task_store::opt_view(*gateway_name),
            *product,
        ),
{
    let mut out: Vec<(String, String)> = Vec::new();
    assert(pair_views(out@) =~= Seq::<(Seq<char>, Seq<char>)>::empty());
    if let Some((models, d)) = session {
        let provider = match gateway_name {
            Some(n) => n.clone(),
            None => String::from_str("sa-ai"),
        };
        if trim_str(d.as_str()).as_str().unicode_len() > 0 {
            push_pair(&mut out, provider.clone(), d.clone());
        }
        let ghost first = pair_views(out@);
        let ghost mv = strings_view(models@);
        let dc = to_chars(d.as_str());
        let mut i: usize = 0;
        assert(mv.take(0) =~= Seq::<Seq<char>>::empty());
        assert(first + other_models(mv.take(0), d@, provider@) =~= first);
        while i < models.len()
            invariant
                i <= models@.len(),
                mv == strings_view(models@),
                dc@ == d@,
                pair_views(out@) == first + other_models(mv.take(i as int), d@, provider@),
            decreases models@.len() - i,
        {
            assert(mv.take(i + 1).drop_last() =~= mv.take(i as int));
            assert(mv.take(i + 1).last() == models@[i as int]@);
            let m = to_chars(models[i].as_str());
            if !chars_eq(&m, &dc) {
                let ghost before = pair_views(out@);
                push_pair(&mut out, provider.clone(), models[i].clone());
                assert(pair_views(out@) =~= first + other_models(mv.take(i + 1), d@, provider@));
            }
            i = i + 1;
        }
        assert(mv.take(models@.len() as int) =~= mv);
        if out.len() > 0 {
            return out;
        }
    }
    if let Some(p) = product {
        push_pair(&mut out, p.name.clone(), p.config.model.clone());
    }
    out
}


/// Whether one of the first `k` entries names this provider.
fn names_provider_within(entries: &Vec<(String, String)>, k: usize, name: &str) -> (r: bool)
    requires
        k <= entries@.len(),
    ensures
        r == names_provider(pair_views(entries@).take(k as int), name@),
{
    let ghost lead = pair_views(entries@).take(k as int);
    let mut j: usize = 0;
    while j < k
        invariant
            j <= k,
            k <= entries@.len(),
            lead == pair_views(entries@).take(k as int),
            forall|x: int| 0 <= x < j ==> lead[x].0 != name@,
        decreases k - j,
    {
        if crate::service_commands::is_text(entries[j].0.as_str(), name) {
            assert(lead[j as int].0 == name@);
            return true;
        }
        j = j + 1;
    }
    false
}

/// The `/models` catalog from the identity session (its models and default
/// model), the gateway provider's name, the resolved product provider and
/// the configured providers of the catalog.
pub fn product_model_entries(
    session: &Option<(Vec<String>, String)>,
    gateway_name: &Option<String>,
    product: &Option<NamedProviderConfig>,
    providers: &Vec<(String, ProviderConfig)>,
) -> (r: Vec<(String, String)>)
    ensures
        pair_views(r@) == model_entries(
            session_view(*session),
            crate::task_store::opt_view(*gateway_name),
            *product,
            crate::name_map::pairs_view(providers@),
        ),
{
    let mut out = leading_model_entries(session, gateway_name, product);
    let ghost lead = pair_views(out@);
    let k = out.len();
    let ghost pv = crate::name_map::pairs_view(providers@);
    let mut i: usize = 0;
    assert(pv.take(0) =~= Seq::<(Seq<char>, ProviderView)>::empty());
    assert(lead + other_entries(pv.take(0), lead) =~= lead);
    while i < providers.len()
        invariant
            i <= providers@.len(),
            k <= out@.len(),
            lead.len() == k,
            pv == crate::name_map::pairs_view(providers@),
            pair_views(out@) == lead + other_entries(pv.take(i as int), lead),
        decreases providers@.len() - i,
    {
        proof {
            assert(pv.take(i + 1).drop_last() =~= pv.take(i as int));
            assert(pv.take(i + 1).last() == pv[i as int]);
            assert(pair_views(out@).take(k as int) =~= lead);
        }
        let name = &providers[i].0;
        if !names_provider_within(&out, k, name.as_str()) {
            push_pair(&mut out, name.clone(), providers[i].1.model.clone());
            assert(pair_views(out@) =~= lead + other_entries(pv.take(i + 1), lead));
        }
        i = i + 1;
    }
    assert(pv.take(pv.len() as int) =~= pv);
    out
}

// ---------------------------------------------------------------------
// Finding the gateway provider
// ---------------------------------------------------------------------

/// A provider of the catalog as the gateway search sees it: whether its
/// name is one of the identity provider's names, and the API key its stored
/// secret resolves to (empty when it resolves to none).
#[derive(Debug)]
pub struct GatewayCandidate {
    pub name: String,
    pub config: ProviderConfig,
    pub identity: bool,
    pub resolved_key: String,
}

/// The key a provider is used with: its own, else the one its secret
/// resolves to.
pub open spec fn effective_key(config: ProviderView, resolved: Seq<char>) -> Seq<char> {
    if config.api_key.len() == 0 { resolved } else { config.api_key }
}

/// An identity provider with a key and a base URL.
pub open spec fn usable_gateway(c: GatewayCandidate) -> bool {
    c.identity && effective_key(c.config@, c.resolved_key@).len() > 0 && c.config.base_url@.len() > 0
}

/// The gateway provider as it is used: with its effective key, and with the
/// session's default model (`default` without one) when it names none.
pub open spec fn gateway_named(c: GatewayCandidate, default_model: Option<Seq<char>>) -> (Seq<char>, ProviderView) {
    (c.name@, ProviderView {
        base_url: c.config.base_url@,
        api_key: effective_key(c.config@, c.resolved_key@),
        model: if c.config.model@.len() == 0 {
            match default_model {
                Some(d) => d,
                None => "default"@,
            }
        } else {
            c.config.model@
        },
    })
}

/// The first usable gateway provider of the catalog, in catalog order.
pub open spec fn first_gateway(c: Seq<GatewayCandidate>, default_model: Option<Seq<char>>) -> Option<(Seq<char>, ProviderView)>
    decreases c.len(),
{
    if c.len() == 0 {
        None
    } else if usable_gateway(c[0]) {
        Some(gateway_named(c[0], default_model))
    } else {
        first_gateway(c.drop_first(), default_model)
    }
}

pub open spec fn named_view(n: Option<NamedProviderConfig>) -> Option<(Seq<char>, ProviderView)> {
    match n {
        Some(x) => Some((x.name@, x.config@)),
        None => None,
    }
}

fn key_of(config: &ProviderConfig, resolved: &String) -> (r: String)
    ensures
        r@ == effective_key(config@, resolved@),
{
    if config.api_key.unicode_len() == 0 { resolved.clone() } else { config.api_key.clone() }
}

/// Executable `first_gateway`; `default_model` is the identity session's
/// default model.
pub fn resolve_gateway_provider(candidates: &Vec<GatewayCandidate>, default_model: &Option<String>) -> (r: Option<NamedProviderConfig>)
    ensures
        named_view(r) == first_gateway(candidates@, crate::task_store::opt_view(*default_model)),
{
    let ghost dm = crate::task_store::opt_view(*default_model);
    let mut i: usize = 0;
    assert(candidates@.skip(0) =~= candidates@);
    while i < candidates.len()
        invariant
            i <= candidates@.len(),
            dm == crate::task_store::opt_view(*default_model),
            first_gateway(candidates@, dm) == first_gateway(candidates@.skip(i as int), dm),
        decreases candidates@.len() - i,
    {
        let c = &candidates[i];
        proof {
            assert(candidates@.skip(i as int)[0] == candidates@[i as int]);
            assert(candidates@.skip(i as int).drop_first() =~= candidates@.skip(i + 1));
        }
        if c.identity {
            let key = key_of(&c.config, &c.resolved_key);
            if key.unicode_len() > 0 && c.config.base_url.unicode_len() > 0 {
                let model = if c.config.model.unicode_len() == 0 {
                    match default_model {
                        Some(d) => d.clone(),
                        None => String::from_str("default"),
                    }
                } else {
                    c.config.model.clone()
                };
                return Some(NamedProviderConfig {
                    name: c.name.clone(),
                    config: ProviderConfig { base_url: c.config.base_url.clone(), api_key: key, model },
                });
            }
        }
        i = i + 1;
    }
    None
}

/// The provider model calls go through: the gateway provider; else the
/// current provider when it is an identity provider usable with its
/// effective key; else the authorized custom provider.
pub open spec fn product_provider_of(
    gateway: Option<(Seq<char>, ProviderView)>,
    current: Option<(Seq<char>, ProviderView, bool, Seq<char>)>,
    authorized: Option<(Seq<char>, ProviderView)>,
) -> Option<(Seq<char>, ProviderView)> {
    match gateway {
        Some(g) => Some(g),
        None => match current {
            Some((name, config, identity, resolved)) => {
                let key = effective_key(config, resolved);
                if identity && key.len() > 0 && config.base_url.len() > 0 {
                    Some((name, ProviderView { api_key: key, ..config }))
                } else {
                    authorized
                }
            },
            None => authorized,
        },
    }
}

/// Executable `product_provider_of`; `current` is the current provider of
/// the catalog with its identity flag and resolved key.
pub fn resolve_product_provider(
    gateway: Option<NamedProviderConfig>,
    current: Option<GatewayCandidate>,
    authorized: Option<NamedProviderConfig>,
) -> (r: Option<NamedProviderConfig>)
    ensures
        named_view(r) == product_provider_of(
            named_view(gateway),
            match current {
                Some(c) => Some((c.name@, c.config@, c.identity, c.resolved_key@)),
                None => None,
            },
            named_view(authorized),
        ),
{
    if gateway.is_some() {
        return gateway;
    }
    match current {
        Some(c) => {
            let key = key_of(&c.config, &c.resolved_key);
            if c.identity && key.unicode_len() > 0 && c.config.base_url.unicode_len() > 0 {
                Some(NamedProviderConfig {
                    name: c.name,
                    config: ProviderConfig { base_url: c.config.base_url, api_key: key, model: c.config.model },
                })
            } else {
                authorized
            }
        },
        None => authorized,
    }
}

} // verus!
