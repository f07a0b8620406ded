//! The provider catalog kept in `<workdir>/.sacode/provider.json`: named
//! provider endpoints (base URL, API key, model) and which one is current.
//!
//! Reading and writing the file happens outside this module; here are the
//! rules that every change applies to the catalog.  A loaded catalog lists
//! its providers in name order, each name once.

use vstd::prelude::*;
use crate::text::{trim, trim_str, to_chars, from_chars};
use crate::name_map::{
    pairs_view, keys_sorted, lists, pairs_map, listing, lemma_listing, lemma_sorted_lists,
    get_named, put_named, remove_named, has_named,
};

verus! {

#[derive(Debug)]
pub struct ProviderConfig {
    pub base_url: String,
    pub api_key: String,
    pub model: String,
}

#[derive(Debug)]
pub struct ProviderCatalog {
    pub current: String,
    /// The providers by name, in name order.
    pub providers: Vec<(String, ProviderConfig)>,
}

#[derive(Debug)]
pub struct NamedProviderConfig {
    pub name: String,
    pub config: ProviderConfig,
}

/// Where the provider catalog lives.
#[derive(Debug)]
pub struct ProviderConfigStore {
    path: String,
}

/// Where the user-level and project-level `config.json` live.
#[derive(Debug)]
pub struct SaCodeConfigStore {
    user_path: String,
    project_path: String,
}

/// Why a change of the catalog was refused.
#[derive(Debug)]
pub enum ProviderError {
    EmptyName,
    NotFound(String),
    AlreadyExists(String),
    CannotRemoveCurrent(String),
}

impl ProviderError {
    pub open spec fn message_text(&self) -> Seq<char> {
        match self {
            ProviderError::EmptyName => "provider name cannot be empty"@,
            ProviderError::NotFound(n) => "provider not found: "@ + n@,
            ProviderError::AlreadyExists(n) => "provider already exists: "@ + n@,
            ProviderError::CannotRemoveCurrent(n) => "cannot remove current provider: "@ + n@,
        }
    }

    /// The message the command line shows for this error.
    pub fn message(&self) -> (r: String)
        ensures
            r@ == self.message_text(),
    {
        let (prefix, name) = match self {
            ProviderError::EmptyName => {
                return String::from_str("provider name cannot be empty");
            },
            ProviderError::NotFound(n) => ("provider not found: ", n),
            ProviderError::AlreadyExists(n) => ("provider already exists: ", n),
            ProviderError::CannotRemoveCurrent(n) => ("cannot remove current provider: ", n),
        };
        let mut s = String::from_str(prefix);
        s.append(name.as_str());
        s
    }
}

pub ghost struct ProviderView {
    pub base_url: Seq<char>,
    pub api_key: Seq<char>,
    pub model: Seq<char>,
}

pub ghost struct CatalogView {
    pub current: Seq<char>,
    pub providers: Seq<(Seq<char>, ProviderView)>,
}

impl View for ProviderConfig {
    type V = ProviderView;

    open spec fn view(&self) -> ProviderView {
        ProviderView { base_url: self.base_url@, api_key: self.api_key@, model: self.model@ }
    }
}

impl View for ProviderCatalog {
    type V = CatalogView;

    open spec fn view(&self) -> CatalogView {
        CatalogView { current: self.current@, providers: pairs_view(self.providers@) }
    }
}

impl View for NamedProviderConfig {
    type V = (Seq<char>, ProviderView);

    open spec fn view(&self) -> (Seq<char>, ProviderView) {
        (self.name@, self.config@)
    }
}

impl ProviderConfig {
    /// A field-for-field copy.
    pub fn copy(&self) -> (r: Self)
        ensures
            r@ == self@,
    {
        ProviderConfig {
            base_url: self.base_url.clone(),
            api_key: self.api_key.clone(),
            model: self.model.clone(),
        }
    }
}

impl ProviderCatalog {
    /// The providers are in name order, each name once.
    pub open spec fn well_formed(&self) -> bool {
        keys_sorted(self@.providers)
    }

    /// A catalog with no providers (what a missing file starts from).
    pub fn empty() -> (r: Self)
        ensures
            r@.current.len() == 0,
            r@.providers.len() == 0,
            r.well_formed(),
    {
        let r = ProviderCatalog { current: String::new(), providers: Vec::new() };
        assert(r@.providers =~= Seq::<(Seq<char>, ProviderView)>::empty());
        r
    }
}

// ---------------------------------------------------------------------
// Base URLs
// ---------------------------------------------------------------------

/// `s` without its trailing slashes.
pub open spec fn strip_trailing_slashes(s: Seq<char>) -> Seq<char>
    decreases s.len(),
{
    if s.len() > 0 && s.last() == '/' {
        strip_trailing_slashes(s.drop_last())
    } else {
        s
    }
}

/// A base URL in canonical form: surrounding whitespace and trailing
/// slashes removed.
pub open spec fn normal_url(s: Seq<char>) -> Seq<char> {
    strip_trailing_slashes(trim(s))
}

/// Puts a base URL into canonical form.
pub fn normalize_base_url(url: &str) -> (r: String)
    ensures
        r@ == normal_url(url@),
{
    let t = trim_str(url);
    let chars = to_chars(t.as_str());
    let mut n: usize = chars.len();
    assert(chars@.take(n as int) =~= chars@);
    while n > 0 && chars[n - 1] == '/'
        invariant
            n <= chars@.len(),
            strip_trailing_slashes(chars@) == strip_trailing_slashes(chars@.take(n as int)),
        decreases n,
    {
        assert(chars@.take(n as int).drop_last() =~= chars@.take(n - 1));
        n = n - 1;
    }
    let kept = crate::text::slice_chars(&chars, 0, n);
    assert(kept@ =~= chars@.take(n as int));
    from_chars(&kept)
}

/// A provider whose base URL is in canonical form.
pub open spec fn with_normal_url(p: ProviderView) -> ProviderView {
    ProviderView { base_url: normal_url(p.base_url), ..p }
}

fn normalized_config(c: &ProviderConfig) -> (r: ProviderConfig)
    ensures
        r@ == with_normal_url(c@),
{
    ProviderConfig {
        base_url: normalize_base_url(c.base_url.as_str()),
        api_key: c.api_key.clone(),
        model: c.model.clone(),
    }
}

// ---------------------------------------------------------------------
// Canonical form of a catalog
// ---------------------------------------------------------------------

/// The entries with trimmed, non-empty names and canonical base URLs.
pub open spec fn normalize_entries(s: Seq<(Seq<char>, ProviderView)>) -> Seq<(Seq<char>, ProviderView)>
    decreases s.len(),
{
    if s.len() == 0 {
        s
    } else if trim(s.last().0).len() == 0 {
        normalize_entries(s.drop_last())
    } else {
        normalize_entries(s.drop_last()).push((trim(s.last().0), with_normal_url(s.last().1)))
    }
}

/// The name a catalog settles on as current: the trimmed name when it names
/// a provider, otherwise the first provider's name (or nothing).
pub open spec fn settle_current(
    current: Seq<char>,
    providers: Seq<(Seq<char>, ProviderView)>,
) -> Seq<char> {
    let c = trim(current);
    if c.len() == 0 || !pairs_map(providers).contains_key(c) {
        if providers.len() == 0 { Seq::empty() } else { providers[0].0 }
    } else {
        c
    }
}

/// The catalog in canonical form, from its current name and its entries.
pub open spec fn catalog_after(
    current: Seq<char>,
    entries: Seq<(Seq<char>, ProviderView)>,
) -> CatalogView {
    let providers = listing(pairs_map(normalize_entries(entries)));
    CatalogView { current: settle_current(current, providers), providers }
}

/// Puts a catalog into canonical form.
pub fn normalize_catalog(catalog: &mut ProviderCatalog)
    ensures
        final(catalog)@ == catalog_after(old(catalog)@.current, old(catalog)@.providers),
        final(catalog).well_formed(),
{
    let ghost all = catalog@.providers;
    let mut out: Vec<(String, ProviderConfig)> = Vec::new();
    let mut i: usize = 0;
    assert(all.take(0) =~= Seq::<(Seq<char>, ProviderView)>::empty());
    assert(pairs_view(out@) =~= Seq::<(Seq<char>, ProviderView)>::empty());
    assert(normalize_entries(all.take(0)) =~= Seq::<(Seq<char>, ProviderView)>::empty());
    while i < catalog.providers.len()
        invariant
            i <= catalog.providers@.len(),
            all == catalog@.providers,
            lists(pairs_view(out@), pairs_map(normalize_entries(all.take(i as int)))),
        decreases catalog.providers@.len() - i,
    {
        proof {
            assert(all.take(i + 1).drop_last() =~= all.take(i as int));
            assert(all.take(i + 1).last() == all[i as int]);
            assert(all[i as int] == (catalog.providers@[i as int].0@, catalog.providers@[i as int].1@));
        }
        let name = trim_str(catalog.providers[i].0.as_str());
        if name.as_str().unicode_len() > 0 {
            let config = normalized_config(&catalog.providers[i].1);
            let ghost nv = name@;
            let ghost cv = config@;
            put_named(&mut out, name, config, Ghost(pairs_map(normalize_entries(all.take(i as int)))));
            proof {
                let e = normalize_entries(all.take(i as int));
                assert(normalize_entries(all.take(i + 1)) == e.push((nv, cv)));
                assert(e.push((nv, cv)).drop_last() =~= e);
            }
        } else {
            assert(normalize_entries(all.take(i + 1)) == normalize_entries(all.take(i as int)));
        }
        i = i + 1;
    }
    assert(all.take(all.len() as int) =~= all);
    proof {
        lemma_listing(pairs_view(out@), pairs_map(normalize_entries(all)));
    }
    let ghost m = pairs_map(normalize_entries(all));
    let current = trim_str(catalog.current.as_str());
    if current.as_str().unicode_len() == 0 || !has_named(&out, current.as_str(), Ghost(m)) {
        catalog.current = if out.len() == 0 {
            String::new()
        } else {
            out[0].0.clone()
        };
        proof {
            if out.len() > 0 {
                assert(pairs_view(out@)[0].0 == out@[0].0@);
            }
            crate::name_map::lemma_lists_pairs_map(pairs_view(out@), m);
        }
    } else {
        catalog.current = current;
        proof {
            crate::name_map::lemma_lists_pairs_map(pairs_view(out@), m);
        }
    }
    catalog.providers = out;
}

// ---------------------------------------------------------------------
// The store
// ---------------------------------------------------------------------

/// The provider a catalog treats as current: the named one when it exists,
/// otherwise the first in name order; none for an empty catalog.
pub open spec fn current_entry(v: CatalogView) -> Option<(Seq<char>, ProviderView)> {
    if v.providers.len() == 0 {
        None
    } else {
        let m = pairs_map(v.providers);
        let name = if v.current.len() > 0 && m.contains_key(v.current) {
            v.current
        } else {
            v.providers[0].0
        };
        Some((name, m[name]))
    }
}

/// The view of an optional named provider.
pub open spec fn named_view(r: Option<NamedProviderConfig>) -> Option<(Seq<char>, ProviderView)> {
    match r {
        Some(n) => Some(n@),
        None => None,
    }
}

/// The view of an optional provider.
pub open spec fn config_view(r: Option<ProviderConfig>) -> Option<ProviderView> {
    match r {
        Some(c) => Some(c@),
        None => None,
    }
}

/// The catalog a missing file stands for.
pub open spec fn empty_catalog() -> CatalogView {
    CatalogView { current: Seq::empty(), providers: Seq::empty() }
}

/// The catalog as loaded, or the empty one.
pub open spec fn loaded_or_empty(catalog: Option<ProviderCatalog>) -> CatalogView {
    match catalog {
        Some(c) => c@,
        None => empty_catalog(),
    }
}

/// A loaded catalog, when there is one, is well formed.
pub open spec fn loaded_well_formed(catalog: Option<ProviderCatalog>) -> bool {
    match catalog {
        Some(c) => c.well_formed(),
        None => true,
    }
}

/// The models offered when a provider's model list cannot be fetched.
pub open spec fn fallback_list(name: Seq<char>) -> Seq<Seq<char>> {
    if name == "ollama"@ {
        seq!["glm-4.7-flash"@]
    } else if name == "mimo"@ {
        seq!["mimo-v2.5-pro"@, "mimo-v2.5"@]
    } else if name == "longcat"@ {
        seq!["LongCat-2.0-Preview"@]
    } else if name == "openai"@ {
        seq!["gpt-5.4"@, "gpt-5.5"@]
    } else if name == "deepseek"@ {
        seq!["deepseek-v4-flash"@, "deepseek-v4-pro"@]
    } else {
        Seq::empty()
    }
}

fn strings_of(a: &str, b: Option<&str>) -> (r: Vec<String>)
    ensures
        crate::task_store::strings_view(r@) == match b {
            Some(b) => seq![a@, b@],
            None => seq![a@],
        },
{
    let mut v: Vec<String> = Vec::new();
    v.push(String::from_str(a));
    match b {
        Some(b) => {
            v.push(String::from_str(b));
            assert(crate::task_store::strings_view(v@) =~= seq![a@, b@]);
        },
        None => {
            assert(crate::task_store::strings_view(v@) =~= seq![a@]);
        },
    }
    v
}

/// The built-in model names of a well-known provider, when its model list
/// cannot be fetched.
pub fn fallback_models(provider_name: &str) -> (r: Vec<String>)
    ensures
        crate::task_store::strings_view(r@) == fallback_list(provider_name@),
{
    let name = String::from_str(provider_name);
    if name.eq(&String::from_str("ollama")) {
        strings_of("glm-4.7-flash", None)
    } else if name.eq(&String::from_str("mimo")) {
        strings_of("mimo-v2.5-pro", Some("mimo-v2.5"))
    } else if name.eq(&String::from_str("longcat")) {
        strings_of("LongCat-2.0-Preview", None)
    } else if name.eq(&String::from_str("openai")) {
        strings_of("gpt-5.4", Some("gpt-5.5"))
    } else if name.eq(&String::from_str("deepseek")) {
        strings_of("deepseek-v4-flash", Some("deepseek-v4-pro"))
    } else {
        let v: Vec<String> = Vec::new();
        assert(crate::task_store::strings_view(v@) =~= Seq::<Seq<char>>::empty());
        v
    }
}

/// The catalog an old single-provider file stands for: that provider, named
/// `default` and current, with its base URL in canonical form.
pub fn catalog_from_legacy(config: ProviderConfig) -> (r: ProviderCatalog)
    ensures
        r@ == (CatalogView {
            current: "default"@,
            providers: seq![("default"@, with_normal_url(config@))],
        }),
{
    let c = normalized_config(&config);
    let mut providers: Vec<(String, ProviderConfig)> = Vec::new();
    providers.push((String::from_str("default"), c));
    let r = ProviderCatalog { current: String::from_str("default"), providers };
    assert(r@.providers =~= seq![("default"@, with_normal_url(config@))]);
    r
}

impl ProviderConfigStore {
    pub closed spec fn path_view(&self) -> Seq<char> {
        self.path@
    }

    /// The store for a working directory: `<workdir>/.sacode/provider.json`.
    pub fn new(workdir: &str) -> (r: Self)
        ensures
            r.path_view() == crate::paths::path_join(workdir@, ".sacode/provider.json"@),
    {
        ProviderConfigStore { path: crate::paths::join_path(workdir, ".sacode/provider.json") }
    }

    pub fn path(&self) -> (r: &str)
        ensures
            r@ == self.path_view(),
    {
        self.path.as_str()
    }

    /// The current provider with its name (see `current_entry`).
    pub fn load_current(&self, catalog: &Option<ProviderCatalog>) -> (r: Option<NamedProviderConfig>)
        requires
            loaded_well_formed(*catalog),
        ensures
            named_view(r) == match catalog {
                Some(c) => current_entry(c@),
                None => None,
            },
    {
        match catalog {
            None => None,
            Some(c) => {
                if c.providers.len() == 0 {
                    return None;
                }
                let ghost m = pairs_map(c@.providers);
                proof {
                    lemma_sorted_lists(c@.providers);
                }
                let use_current = c.current.as_str().unicode_len() > 0 && has_named(
                    &c.providers,
                    c.current.as_str(),
                    Ghost(m),
                );
                let name = if use_current {
                    c.current.clone()
                } else {
                    assert(c@.providers[0].0 == c.providers@[0].0@);
                    c.providers[0].0.clone()
                };
                let found = get_named(&c.providers, name.as_str(), Ghost(m));
                proof {
                    if !use_current {
                        assert(m.contains_key(c@.providers[0].0));
                    }
                }
                match found {
                    Some(config) => Some(NamedProviderConfig { name, config: config.copy() }),
                    None => None,
                }
            },
        }
    }

    /// The current provider (see `current_entry`).
    pub fn load(&self, catalog: &Option<ProviderCatalog>) -> (r: Option<ProviderConfig>)
        requires
            loaded_well_formed(*catalog),
        ensures
            config_view(r) == match catalog {
                Some(c) => match current_entry(c@) {
                    Some(e) => Some(e.1),
                    None => None,
                },
                None => None,
            },
    {
        match self.load_current(catalog) {
            Some(named) => Some(named.config),
            None => None,
        }
    }

    /// The catalog after storing `config` (base URL in canonical form) under
    /// the trimmed `name`; the name becomes current when asked to, or when
    /// nothing was current.
    pub fn save_named(
        &self,
        catalog: Option<ProviderCatalog>,
        name: &str,
        config: &ProviderConfig,
        set_current: bool,
    ) -> (r: ProviderCatalog)
        requires
            loaded_well_formed(catalog),
        ensures
            ({
                let base = loaded_or_empty(catalog);
                let m = pairs_map(base.providers).insert(trim(name@), with_normal_url(config@));
                let current = if set_current || base.current.len() == 0 {
                    trim(name@)
                } else {
                    base.current
                };
                r@ == catalog_after(current, listing(m))
            }),
            r.well_formed(),
    {
        let mut cat = match catalog {
            Some(c) => c,
            None => ProviderCatalog::empty(),
        };
        let ghost base = cat@;
        proof {
            lemma_sorted_lists(base.providers);
        }
        let key = trim_str(name);
        let value = normalized_config(config);
        let set_it = set_current || cat.current.as_str().unicode_len() == 0;
        let ghost kv = key@;
        let ghost vv = value@;
        put_named(&mut cat.providers, key, value, Ghost(pairs_map(base.providers)));
        proof {
            lemma_listing(cat@.providers, pairs_map(base.providers).insert(kv, vv));
        }
        if set_it {
            cat.current = trim_str(name);
        }
        normalize_catalog(&mut cat);
        cat
    }

    /// The catalog after storing `config` as the current provider `default`.
    pub fn save(&self, catalog: Option<ProviderCatalog>, config: &ProviderConfig) -> (r: ProviderCatalog)
        requires
            loaded_well_formed(catalog),
        ensures
            ({
                let base = loaded_or_empty(catalog);
                let m = pairs_map(base.providers).insert("default"@, with_normal_url(config@));
                r@ == catalog_after(trim("default"@), listing(m))
            }),
            r.well_formed(),
    {
        proof {
            reveal_strlit("default");
            crate::project_profile::lemma_trim_idempotent("default"@);
            assert(trim("default"@) == "default"@) by {
                assert(crate::text::trim_start("default"@) == "default"@);
                assert(crate::text::trim_end("default"@) == "default"@);
            }
        }
        self.save_named(catalog, "default", config, true)
    }

    /// Makes `name` current; refused when no provider has that name.
    pub fn set_current(&self, catalog: &mut ProviderCatalog, name: &str) -> (r: Result<(), ProviderError>)
        requires
            old(catalog).well_formed(),
        ensures
            !pairs_map(old(catalog)@.providers).contains_key(name@) ==> (r matches Err(
                ProviderError::NotFound(n),
            ) && n@ == name@ && final(catalog)@ == old(catalog)@),
            pairs_map(old(catalog)@.providers).contains_key(name@) ==> (r is Ok && final(catalog)@
                == catalog_after(name@, old(catalog)@.providers)),
            final(catalog).well_formed(),
    {
        proof {
            lemma_sorted_lists(catalog@.providers);
        }
        if !has_named(&catalog.providers, name, Ghost(pairs_map(catalog@.providers))) {
            return Err(ProviderError::NotFound(String::from_str(name)));
        }
        catalog.current = String::from_str(name);
        normalize_catalog(catalog);
        Ok(())
    }

    /// The provider stored under `name`.
    pub fn get(&self, catalog: &Option<ProviderCatalog>, name: &str) -> (r: Option<ProviderConfig>)
        requires
            loaded_well_formed(*catalog),
        ensures
            config_view(r) == match catalog {
                Some(c) => if pairs_map(c@.providers).contains_key(name@) {
                    Some(pairs_map(c@.providers)[name@])
                } else {
                    None
                },
                None => None,
            },
    {
        match catalog {
            None => None,
            Some(c) => {
                proof {
                    lemma_sorted_lists(c@.providers);
                }
                match get_named(&c.providers, name, Ghost(pairs_map(c@.providers))) {
                    Some(config) => Some(config.copy()),
                    None => None,
                }
            },
        }
    }

    /// Renames a provider (names trimmed); the current name follows it.
    pub fn rename(&self, catalog: &mut ProviderCatalog, from: &str, to: &str) -> (r: Result<(), ProviderError>)
        requires
            old(catalog).well_formed(),
        ensures
            ({
                let f = trim(from@);
                let t = trim(to@);
                let m = pairs_map(old(catalog)@.providers);
                &&& (f.len() == 0 || t.len() == 0) ==> (r matches Err(ProviderError::EmptyName)
                    && final(catalog)@ == old(catalog)@)
                &&& (f.len() > 0 && t.len() > 0 && !m.contains_key(f)) ==> (r matches Err(
                    ProviderError::NotFound(n),
                ) && n@ == f && final(catalog)@ == old(catalog)@)
                &&& (f.len() > 0 && t.len() > 0 && m.contains_key(f) && f != t && m.contains_key(t))
                    ==> (r matches Err(ProviderError::AlreadyExists(n)) && n@ == t && final(catalog)@
                    == old(catalog)@)
                &&& (f.len() > 0 && t.len() > 0 && m.contains_key(f) && (f == t || !m.contains_key(t)))
                    ==> (r is Ok && final(catalog)@ == catalog_after(
                    if old(catalog)@.current == f { t } else { old(catalog)@.current },
                    listing(m.remove(f).insert(t, m[f])),
                ))
            }),
            final(catalog).well_formed(),
    {
        let f = trim_str(from);
        let t = trim_str(to);
        if f.as_str().unicode_len() == 0 || t.as_str().unicode_len() == 0 {
            return Err(ProviderError::EmptyName);
        }
        let ghost m = pairs_map(catalog@.providers);
        proof {
            lemma_sorted_lists(catalog@.providers);
        }
        if !has_named(&catalog.providers, f.as_str(), Ghost(m)) {
            return Err(ProviderError::NotFound(f));
        }
        if !f.eq(&t) && has_named(&catalog.providers, t.as_str(), Ghost(m)) {
            return Err(ProviderError::AlreadyExists(t));
        }
        let removed = remove_named(&mut catalog.providers, f.as_str(), Ghost(m));
        let config = match removed {
            Some(c) => c,
            None => {
                return Err(ProviderError::NotFound(f));
            },
        };
        let ghost cv = config@;
        let ghost tv = t@;
        let follows = catalog.current.eq(&f);
        let t2 = t.clone();
        put_named(&mut catalog.providers, t, config, Ghost(m.remove(f@)));
        proof {
            lemma_listing(catalog@.providers, m.remove(f@).insert(tv, cv));
        }
        if follows {
            catalog.current = t2;
        }
        normalize_catalog(catalog);
        Ok(())
    }

    /// Removes a provider (name trimmed); the current one cannot be removed.
    pub fn remove(&self, catalog: &mut ProviderCatalog, name: &str) -> (r: Result<(), ProviderError>)
        requires
            old(catalog).well_formed(),
        ensures
            ({
                let n = trim(name@);
                let m = pairs_map(old(catalog)@.providers);
                &&& old(catalog)@.current == n ==> (r matches Err(ProviderError::CannotRemoveCurrent(x))
                    && x@ == n && final(catalog)@ == old(catalog)@)
                &&& (old(catalog)@.current != n && !m.contains_key(n)) ==> (r matches Err(
                    ProviderError::NotFound(x),
                ) && x@ == n && final(catalog)@ == old(catalog)@)
                &&& (old(catalog)@.current != n && m.contains_key(n)) ==> (r is Ok && final(catalog)@
                    == catalog_after(old(catalog)@.current, listing(m.remove(n))))
            }),
            final(catalog).well_formed(),
    {
        let n = trim_str(name);
        if catalog.current.eq(&n) {
            return Err(ProviderError::CannotRemoveCurrent(n));
        }
        let ghost m = pairs_map(catalog@.providers);
        proof {
            lemma_sorted_lists(catalog@.providers);
        }
        if !has_named(&catalog.providers, n.as_str(), Ghost(m)) {
            return Err(ProviderError::NotFound(n));
        }
        let _ = remove_named(&mut catalog.providers, n.as_str(), Ghost(m));
        proof {
            lemma_listing(catalog@.providers, m.remove(n@));
        }
        normalize_catalog(catalog);
        Ok(())
    }

    /// The provider names, in name order.
    pub fn list_names(&self, catalog: &Option<ProviderCatalog>) -> (r: Vec<String>)
        ensures
            crate::task_store::strings_view(r@) == match catalog {
                Some(c) => c@.providers.map_values(|e: (Seq<char>, ProviderView)| e.0),
                None => Seq::empty(),
            },
    {
        let mut names: Vec<String> = Vec::new();
        match catalog {
            None => {
                assert(crate::task_store::strings_view(names@) =~= Seq::<Seq<char>>::empty());
            },
            Some(c) => {
                let ghost all = c@.providers.map_values(|e: (Seq<char>, ProviderView)| e.0);
                let mut i: usize = 0;
                assert(crate::task_store::strings_view(names@) =~= all.take(0));
                while i < c.providers.len()
                    invariant
                        i <= c.providers@.len(),
                        all == c@.providers.map_values(|e: (Seq<char>, ProviderView)| e.0),
                        crate::task_store::strings_view(names@) == all.take(i as int),
                    decreases c.providers@.len() - i,
                {
                    let n = c.providers[i].0.clone();
                    let ghost prev = names@;
                    names.push(n);
                    proof {
                        prev.lemma_push_map_commute(|s: String| s@, n);
                        assert(all[i as int] == c.providers@[i as int].0@);
                        assert(all.take(i + 1) =~= all.take(i as int).push(all[i as int]));
                    }
                    i = i + 1;
                }
                assert(all.take(all.len() as int) =~= all);
            },
        }
        names
    }
}

impl SaCodeConfigStore {
    pub closed spec fn user_path_view(&self) -> Seq<char> {
        self.user_path@
    }

    pub closed spec fn project_path_view(&self) -> Seq<char> {
        self.project_path@
    }

    /// The user-level file under the home directory (the current directory
    /// when there is none) and the project-level file under `workdir`, both
    /// `.sacode/config.json`.
    pub fn new(workdir: &str, home: Option<&str>) -> (r: Self)
        ensures
            r.user_path_view() == crate::paths::path_join(
                match home {
                    Some(h) => h@,
                    None => "."@,
                },
                ".sacode/config.json"@,
            ),
            r.project_path_view() == crate::paths::path_join(workdir@, ".sacode/config.json"@),
    {
        let base = match home {
            Some(h) => h,
            None => ".",
        };
        SaCodeConfigStore {
            user_path: crate::paths::join_path(base, ".sacode/config.json"),
            project_path: crate::paths::join_path(workdir, ".sacode/config.json"),
        }
    }

    pub fn user_path(&self) -> (r: &str)
        ensures
            r@ == self.user_path_view(),
    {
        self.user_path.as_str()
    }

    pub fn project_path(&self) -> (r: &str)
        ensures
            r@ == self.project_path_view(),
    {
        self.project_path.as_str()
    }

    /// The provider names of the effective configuration (`names`, the keys
    /// of its `provider` table), sorted.
    pub fn list_names(&self, names: &Vec<String>) -> (r: Vec<String>)
        ensures
            crate::task_store::strings_view(r@) == crate::order::sort_strs(crate::task_store::strings_view(names@)),
    {
        crate::order::sort_strings(names)
    }

    /// The current provider: the provider part of what the configured
    /// model reference resolves to (`resolved`, the configuration's own
    /// resolution of `provider/model`), if it resolves.
    pub fn current_provider_name(&self, resolved: Option<(String, String)>) -> (r: Option<String>)
        ensures
            match resolved {
                Some((p, _)) => r is Some && r->0@ == p@,
                None => r is None,
            },
    {
        match resolved {
            Some((p, _)) => Some(p),
            None => None,
        }
    }
}

/// The model reference `provider/model` the configuration stores.
pub fn model_reference(provider: &str, model: &str) -> (r: String)
    ensures
        r@ == provider@ + "/"@ + model@,
{
    let mut s = String::from_str(provider);
    s.append("/");
    s.append(model);
    s
}

/// A model reference after the provider `from` is renamed `to`: the same
/// model under the new name when the reference resolved to `from`, else
/// unchanged (none).
pub fn renamed_reference(resolved: &Option<(String, String)>, from: &str, to: &str) -> (r: Option<String>)
    ensures
        match resolved {
            Some((p, m)) => if p@ == from@ {
                r is Some && r->0@ == to@ + "/"@ + m@
            } else {
                r is None
            },
            None => r is None,
        },
{
    match resolved {
        Some((p, m)) => {
            if crate::service_commands::is_text(p.as_str(), from) {
                Some(model_reference(to, m.as_str()))
            } else {
                None
            }
        },
        None => None,
    }
}

/// The names of a rename, trimmed; refused when either is blank.
pub fn rename_names(from: &str, to: &str) -> (r: Result<(String, String), ProviderError>)
    ensures
        (trim(from@).len() == 0 || trim(to@).len() == 0) ==> r matches Err(ProviderError::EmptyName),
        (trim(from@).len() > 0 && trim(to@).len() > 0) ==> (r matches Ok((f, t)) && f@ == trim(from@) && t@ == trim(to@)),
{
    let f = trim_str(from);
    let t = trim_str(to);
    if f.as_str().unicode_len() == 0 || t.as_str().unicode_len() == 0 {
        Err(ProviderError::EmptyName)
    } else {
        Ok((f, t))
    }
}

/// Removing a provider is refused while the configured model resolves to
/// it.
pub fn removal_refused(resolved: &Option<(String, String)>, name: &str) -> (r: Option<ProviderError>)
    ensures
        match resolved {
            Some((p, _)) => if p@ == trim(name@) {
                r matches Some(ProviderError::CannotRemoveCurrent(n)) && n@ == trim(name@)
            } else {
                r is None
            },
            None => r is None,
        },
{
    let n = trim_str(name);
    match resolved {
        Some((p, _)) => {
            if crate::service_commands::is_text(p.as_str(), n.as_str()) {
                Some(ProviderError::CannotRemoveCurrent(n))
            } else {
                None
            }
        },
        None => None,
    }
}

// ---------------------------------------------------------------------
// Laws
// ---------------------------------------------------------------------

/// Every provider name is trimmed and non-empty (as after normalisation).
pub open spec fn names_canonical(s: Seq<(Seq<char>, ProviderView)>) -> bool {
    forall|i: int| 0 <= i < s.len() ==> #[trigger] trim(s[i].0) == s[i].0 && s[i].0.len() > 0
}

proof fn lemma_normalize_canonical(s: Seq<(Seq<char>, ProviderView)>)
    requires
        names_canonical(s),
    ensures
        normalize_entries(s) == s.map_values(|e: (Seq<char>, ProviderView)| (e.0, with_normal_url(e.1))),
    decreases s.len(),
{
    if s.len() > 0 {
        let d = s.drop_last();
        assert(names_canonical(d)) by {
            assert forall|i: int| 0 <= i < d.len() implies #[trigger] trim(d[i].0) == d[i].0 && d[i].0.len() > 0 by {
                assert(d[i] == s[i]);
            }
        }
        lemma_normalize_canonical(d);
        assert(trim(s[s.len() - 1].0) == s.last().0);
        assert(s.map_values(|e: (Seq<char>, ProviderView)| (e.0, with_normal_url(e.1))) =~= d.map_values(
            |e: (Seq<char>, ProviderView)| (e.0, with_normal_url(e.1)),
        ).push((s.last().0, with_normal_url(s.last().1))));
    }
}

proof fn lemma_map_values_pairs(s: Seq<(Seq<char>, ProviderView)>, k: Seq<char>)
    ensures
        ({
            let t = s.map_values(|e: (Seq<char>, ProviderView)| (e.0, with_normal_url(e.1)));
            &&& pairs_map(t).contains_key(k) == pairs_map(s).contains_key(k)
            &&& pairs_map(s).contains_key(k) ==> pairs_map(t)[k] == with_normal_url(pairs_map(s)[k])
        }),
    decreases s.len(),
{
    if s.len() > 0 {
        lemma_map_values_pairs(s.drop_last(), k);
        let t = s.map_values(|e: (Seq<char>, ProviderView)| (e.0, with_normal_url(e.1)));
        assert(t.drop_last() =~= s.drop_last().map_values(
            |e: (Seq<char>, ProviderView)| (e.0, with_normal_url(e.1)),
        ));
    }
}

proof fn lemma_listing_canonical(
    l: Seq<(Seq<char>, ProviderView)>,
    base: Seq<(Seq<char>, ProviderView)>,
    extra: Seq<char>,
    m: Map<Seq<char>, ProviderView>,
)
    requires
        lists(l, m),
        names_canonical(base),
        trim(extra) == extra,
        extra.len() > 0,
        forall|k: Seq<char>| #[trigger] m.contains_key(k) ==> k == extra || pairs_map(base).contains_key(k),
    ensures
        names_canonical(l),
{
    assert forall|i: int| 0 <= i < l.len() implies #[trigger] trim(l[i].0) == l[i].0 && l[i].0.len() > 0 by {
        assert(m.contains_key(l[i].0));
        if l[i].0 != extra {
            lemma_pairs_map_key(base, l[i].0);
        }
    }
}

proof fn lemma_pairs_map_key(s: Seq<(Seq<char>, ProviderView)>, k: Seq<char>)
    requires
        pairs_map(s).contains_key(k),
    ensures
        exists|i: int| 0 <= i < s.len() && s[i].0 == k,
    decreases s.len(),
{
    if s.last().0 != k {
        lemma_pairs_map_key(s.drop_last(), k);
        let i = choose|i: int| 0 <= i < s.drop_last().len() && s.drop_last()[i].0 == k;
        assert(s[i] == s.drop_last()[i]);
    } else {
        assert(s[s.len() - 1].0 == k);
    }
}

proof fn lemma_pairs_map_key_canonical(s: Seq<(Seq<char>, ProviderView)>, k: Seq<char>)
    requires
        pairs_map(s).contains_key(k),
        names_canonical(s),
    ensures
        trim(k) == k,
        k.len() > 0,
{
    lemma_pairs_map_key(s, k);
    let i = choose|i: int| 0 <= i < s.len() && s[i].0 == k;
    assert(trim(s[i].0) == s[i].0);
}

/// What a save stores is what the next load gives back: after saving
/// `config` under a non-empty trimmed `name` as current, the current provider
/// is that name with that configuration (its base URL put into canonical
/// form once by the save and once by the catalog's normalisation).  `listed`
/// is the catalog's provider list in name order, as `save_named` describes.
pub proof fn law_save_then_load(
    base: CatalogView,
    name: Seq<char>,
    config: ProviderView,
    listed: Seq<(Seq<char>, ProviderView)>,
)
    requires
        names_canonical(base.providers),
        keys_sorted(base.providers),
        trim(name).len() > 0,
        lists(listed, pairs_map(base.providers).insert(trim(name), with_normal_url(config))),
    ensures
        current_entry(catalog_after(trim(name), listed)) == Some(
            (trim(name), with_normal_url(with_normal_url(config))),
        ),
{
    let t = trim(name);
    let m = pairs_map(base.providers).insert(t, with_normal_url(config));
    crate::project_profile::lemma_trim_idempotent(name);
    lemma_listing_canonical(listed, base.providers, t, m);
    lemma_normalize_canonical(listed);
    lemma_listing(listed, m);
    let n = normalize_entries(listed);
    lemma_map_values_pairs(listed, t);
    crate::name_map::lemma_lists_pairs_map(listed, m);
    let p = listing(pairs_map(n));
    let v = catalog_after(t, listed);
    // The normalised list is still in name order, so it lists its own map.
    assert(keys_sorted(n)) by {
        assert forall|i: int, j: int| 0 <= i < j < n.len() implies crate::order::seq_compare(n[i].0, n[j].0) < 0 by {
            assert(n[i].0 == listed[i].0 && n[j].0 == listed[j].0);
        }
    }
    crate::name_map::lemma_sorted_lists(n);
    lemma_listing(n, pairs_map(n));
    assert(pairs_map(n).contains_key(t));
    assert(v.current == t);
    crate::name_map::lemma_sorted_lists(p);
    crate::name_map::lemma_lists_same_map(p, pairs_map(p), pairs_map(n));
}

/// A removed provider is gone from the catalog, and every other provider
/// stays.  `listed` is the provider list in name order, as `remove`
/// describes.
pub proof fn law_remove_drops_only_that_provider(
    base: CatalogView,
    name: Seq<char>,
    listed: Seq<(Seq<char>, ProviderView)>,
)
    requires
        names_canonical(base.providers),
        keys_sorted(base.providers),
        lists(listed, pairs_map(base.providers).remove(trim(name))),
    ensures
        ({
            let after = pairs_map(catalog_after(base.current, listed).providers);
            &&& !after.contains_key(trim(name))
            &&& forall|k: Seq<char>| #![trigger after.contains_key(k)] k != trim(name) ==> (after.contains_key(k)
                == pairs_map(base.providers).contains_key(k))
        }),
{
    let m = pairs_map(base.providers).remove(trim(name));
    assert(names_canonical(listed)) by {
        assert forall|i: int| 0 <= i < listed.len() implies #[trigger] trim(listed[i].0) == listed[i].0 && listed[i].0.len() > 0 by {
            assert(m.contains_key(listed[i].0));
            lemma_pairs_map_key_canonical(base.providers, listed[i].0);
        }
    }
    lemma_normalize_canonical(listed);
    let n = normalize_entries(listed);
    crate::name_map::lemma_lists_pairs_map(listed, m);
    assert(keys_sorted(n)) by {
        assert forall|i: int, j: int| 0 <= i < j < n.len() implies crate::order::seq_compare(n[i].0, n[j].0) < 0 by {
            assert(n[i].0 == listed[i].0 && n[j].0 == listed[j].0);
        }
    }
    crate::name_map::lemma_sorted_lists(n);
    lemma_listing(n, pairs_map(n));
    let p = listing(pairs_map(n));
    crate::name_map::lemma_sorted_lists(p);
    crate::name_map::lemma_lists_same_map(p, pairs_map(p), pairs_map(n));
    assert forall|k: Seq<char>| #![trigger pairs_map(p).contains_key(k)] pairs_map(p).contains_key(k) == m.contains_key(k) by {
        lemma_map_values_pairs(listed, k);
    }
}

/// The `/connect` options: each preset provider but `ollama` (which needs
/// no API key), with its base URL, marked as needing a key.
pub open spec fn connect_options(presets: Seq<(Seq<char>, Seq<char>)>) -> Seq<(Seq<char>, Seq<char>, bool)>
    decreases presets.len(),
{
    if presets.len() == 0 {
        Seq::empty()
    } else {
        let rest = connect_options(presets.drop_last());
        if presets.last().0 == "ollama"@ { rest } else { rest.push((presets.last().0, presets.last().1, true)) }
    }
}

/// The views of `(name, base URL, needs key)` options.
pub open spec fn options_view(v: Seq<(String, String, bool)>) -> Seq<(Seq<char>, Seq<char>, bool)> {
    v.map_values(|o: (String, String, bool)| (o.0@, o.1@, o.2))
}

/// The `/connect` options from the preset providers (`(name, base URL)`, in
/// the presets' order).
pub fn preset_connect_options(presets: &Vec<(String, String)>) -> (r: Vec<(String, String, bool)>)
    ensures
        options_view(r@) == connect_options(presets@.map_values(|p: (String, String)| (p.0@, p.1@))),
{
    let ghost pv = presets@.map_values(|p: (String, String)| (p.0@, p.1@));
    let mut out: Vec<(String, String, bool)> = Vec::new();
    let mut i: usize = 0;
    assert(pv.take(0) =~= Seq::<(Seq<char>, Seq<char>)>::empty());
    assert(options_view(out@) =~= Seq::<(Seq<char>, Seq<char>, bool)>::empty());
    while i < presets.len()
        invariant
            i <= presets@.len(),
            pv == presets@.map_values(|p: (String, String)| (p.0@, p.1@)),
            options_view(out@) == connect_options(pv.take(i as int)),
        decreases presets@.len() - i,
    {
        proof {
            assert(pv.take(i + 1).drop_last() =~= pv.take(i as int));
            assert(pv.take(i + 1).last() == pv[i as int]);
        }
        let (name, url) = &presets[i];
        if !crate::service_commands::is_text(name.as_str(), "ollama") {
            let x = (name.clone(), url.clone(), true);
            let ghost prev = out@;
            out.push(x);
            proof {
                prev.lemma_push_map_commute(|o: (String, String, bool)| (o.0@, o.1@, o.2), x);
            }
        }
        i = i + 1;
    }
    assert(pv.take(pv.len() as int) =~= pv);
    out
}

} // verus!
