//! Plugin lists kept per user (`~/.sacode/plugins.json`) and per project
//! (`<workdir>/.sacode/plugins.json`).
//!
//! Files are read and written outside this module; here are the rules that
//! merge the two lists and edit one of them.

use vstd::prelude::*;
use crate::order::{seq_compare, compare_str, lemma_compare_antisym, lemma_compare_trans, lemma_compare_zero_eq, lemma_compare_refl};

verus! {

#[derive(Debug)]
pub struct PluginConfigFile {
    pub plugins: Vec<PluginEntry>,
}

#[derive(Debug)]
pub struct PluginEntry {
    pub name: String,
    pub version: String,
    pub enabled: bool,
}

#[derive(Debug, Clone, Copy, PartialEq, Eq, Structural)]
pub enum PluginSource {
    User,
    Project,
}

#[derive(Debug)]
pub struct PluginResolvedEntry {
    pub plugin: PluginEntry,
    pub source: PluginSource,
}

/// The two plugin files.
#[derive(Debug)]
pub struct PluginConfigStore {
    user_path: String,
    project_path: String,
}

/// Why an edit of a plugin list was refused.
#[derive(Debug)]
pub enum PluginConfigError {
    NotFound(String),
}

impl PluginConfigError {
    /// The message the command line shows for this error.
    pub fn message(&self) -> (r: String)
        ensures
            r@ == match self {
                PluginConfigError::NotFound(name) => "plugin not found: "@ + name@,
            },
    {
        match self {
            PluginConfigError::NotFound(name) => {
                let mut s = String::from_str("plugin not found: ");
                s.append(name.as_str());
                s
            },
        }
    }
}

/// The mathematical value of a plugin entry.
pub ghost struct PluginView {
    pub name: Seq<char>,
    pub version: Seq<char>,
    pub enabled: bool,
}

impl View for PluginEntry {
    type V = PluginView;

    open spec fn view(&self) -> PluginView {
        PluginView { name: self.name@, version: self.version@, enabled: self.enabled }
    }
}

/// The views of a plugin list.
pub open spec fn plugins_view(v: Seq<PluginEntry>) -> Seq<PluginView> {
    v.map_values(|p: PluginEntry| p@)
}

impl View for PluginConfigFile {
    type V = Seq<PluginView>;

    open spec fn view(&self) -> Seq<PluginView> {
        plugins_view(self.plugins@)
    }
}

impl View for PluginResolvedEntry {
    type V = (PluginView, PluginSource);

    open spec fn view(&self) -> (PluginView, PluginSource) {
        (self.plugin@, self.source)
    }
}

/// The views of a merged listing.
pub open spec fn resolved_view(v: Seq<PluginResolvedEntry>) -> Seq<(PluginView, PluginSource)> {
    v.map_values(|e: PluginResolvedEntry| e@)
}

impl PluginEntry {
    /// A field-for-field copy.
    pub fn copy(&self) -> (r: Self)
        ensures
            r@ == self@,
    {
        PluginEntry { name: self.name.clone(), version: self.version.clone(), enabled: self.enabled }
    }
}

impl PluginConfigFile {
    /// An empty plugin list (what a missing file reads as).
    pub fn empty() -> (r: Self)
        ensures
            r@.len() == 0,
    {
        let r = PluginConfigFile { plugins: Vec::new() };
        assert(r@ =~= Seq::<PluginView>::empty());
        r
    }
}

impl PluginSource {
    pub open spec fn label_text(self) -> Seq<char> {
        match self {
            PluginSource::User => "user"@,
            PluginSource::Project => "project"@,
        }
    }

    pub fn label(self) -> (r: &'static str)
        ensures
            r@ == self.label_text(),
    {
        match self {
            PluginSource::User => "user",
            PluginSource::Project => "project",
        }
    }
}

// ---------------------------------------------------------------------
// Merging the two lists
// ---------------------------------------------------------------------

/// The user entries, then the project entries, each with its source.
pub open spec fn tagged(user: Seq<PluginView>, project: Seq<PluginView>) -> Seq<(PluginView, PluginSource)> {
    user.map_values(|p: PluginView| (p, PluginSource::User)) + project.map_values(
        |p: PluginView| (p, PluginSource::Project),
    )
}

/// Entries by name, a later entry replacing an earlier one of the same name.
pub open spec fn by_name(s: Seq<(PluginView, PluginSource)>) -> Map<Seq<char>, (PluginView, PluginSource)>
    decreases s.len(),
{
    if s.len() == 0 {
        Map::empty()
    } else {
        by_name(s.drop_last()).insert(s.last().0.name, s.last())
    }
}

/// The names strictly increase.
pub open spec fn names_strictly_sorted(s: Seq<(PluginView, PluginSource)>) -> bool {
    forall|i: int, j: int| 0 <= i < j < s.len() ==> seq_compare(s[i].0.name, s[j].0.name) < 0
}

/// `s` lists the map `m` in name order.
pub open spec fn lists_map(
    s: Seq<(PluginView, PluginSource)>,
    m: Map<Seq<char>, (PluginView, PluginSource)>,
) -> bool {
    &&& names_strictly_sorted(s)
    &&& forall|i: int| 0 <= i < s.len() ==> #[trigger] m.contains_key(s[i].0.name) && m[s[i].0.name] == s[i]
    &&& forall|k: Seq<char>| #[trigger] m.contains_key(k) ==> exists|i: int| 0 <= i < s.len() && s[i].0.name == k
}

impl PluginResolvedEntry {
    fn copy(&self) -> (r: Self)
        ensures
            r@ == self@,
    {
        PluginResolvedEntry { plugin: self.plugin.copy(), source: self.source }
    }
}

proof fn lemma_resolved_insert(v: Seq<PluginResolvedEntry>, p: int, x: PluginResolvedEntry)
    requires
        0 <= p <= v.len(),
    ensures
        resolved_view(v.insert(p, x)) == resolved_view(v).insert(p, x@),
{
    assert(resolved_view(v.insert(p, x)) =~= resolved_view(v).insert(p, x@));
}

proof fn lemma_resolved_update(v: Seq<PluginResolvedEntry>, p: int, x: PluginResolvedEntry)
    requires
        0 <= p < v.len(),
    ensures
        resolved_view(v.update(p, x)) == resolved_view(v).update(p, x@),
{
    assert(resolved_view(v.update(p, x)) =~= resolved_view(v).update(p, x@));
}

/// Puts `e` into a listing kept in name order, replacing an entry of the
/// same name.
#[verifier::spinoff_prover]
#[verifier::rlimit(40)]
fn put_by_name(out: &mut Vec<PluginResolvedEntry>, e: PluginResolvedEntry, Ghost(m): Ghost<Map<Seq<char>, (PluginView, PluginSource)>>)
    requires
        lists_map(resolved_view(old(out)@), m),
    ensures
        lists_map(resolved_view(final(out)@), m.insert(e@.0.name, e@)),
{
    let ghost s = resolved_view(out@);
    let ghost ev = e@;
    let mut i: usize = 0;
    while i < out.len() && compare_str(out[i].plugin.name.as_str(), e.plugin.name.as_str()) < 0
        invariant
            i <= out@.len(),
            s == resolved_view(out@),
            ev == e@,
            forall|j: int| 0 <= j < i ==> seq_compare(s[j].0.name, ev.0.name) < 0,
        decreases out@.len() - i,
    {
        assert(s[i as int] == out@[i as int]@);
        i = i + 1;
    }
    let ghost m2 = m.insert(ev.0.name, ev);
    if i < out.len() && compare_str(out[i].plugin.name.as_str(), e.plugin.name.as_str()) == 0 {
        proof {
            lemma_compare_zero_eq(s[i as int].0.name, ev.0.name);
        }
        out.set(i, e);
        proof {
            lemma_resolved_update(old(out)@, i as int, e);
            let r = resolved_view(out@);
            assert(r == s.update(i as int, ev));
            assert forall|a: int, b: int| 0 <= a < b < r.len() implies seq_compare(r[a].0.name, r[b].0.name) < 0 by {
                assert(seq_compare(s[a].0.name, s[b].0.name) < 0);
            }
            assert forall|k: Seq<char>| #[trigger] m2.contains_key(k) implies exists|j: int| 0 <= j < r.len() && r[j].0.name == k by {
                if k == ev.0.name {
                    assert(r[i as int].0.name == k);
                } else {
                    assert(m.contains_key(k));
                    let j = choose|j: int| 0 <= j < s.len() && s[j].0.name == k;
                    assert(r[j].0.name == k);
                }
            }
            assert forall|j: int| 0 <= j < r.len() implies #[trigger] m2.contains_key(r[j].0.name) && m2[r[j].0.name] == r[j] by {
                if j != i {
                    assert(m.contains_key(s[j].0.name));
                    if s[j].0.name == ev.0.name {
                        lemma_compare_refl(ev.0.name);
                        if j < i {
                            assert(seq_compare(s[j].0.name, s[i as int].0.name) < 0);
                        } else {
                            assert(seq_compare(s[i as int].0.name, s[j].0.name) < 0);
                        }
                    }
                }
            }
        }
    } else {
        proof {
            if i < out.len() {
                lemma_compare_antisym(s[i as int].0.name, ev.0.name);
            }
        }
        out.insert(i, e);
        proof {
            lemma_resolved_insert(old(out)@, i as int, e);
            let r = resolved_view(out@);
            assert(r == s.insert(i as int, ev));
            assert forall|a: int, b: int| 0 <= a < b < r.len() implies seq_compare(r[a].0.name, r[b].0.name) < 0 by {
                if a < i && b == i {
                } else if a < i && b > i {
                    assert(r[a] == s[a] && r[b] == s[b - 1]);
                    if (b - 1) as int > a {
                        assert(seq_compare(s[a].0.name, s[b - 1].0.name) < 0);
                    }
                } else if a == i {
                    assert(r[b] == s[b - 1]);
                    if b - 1 > i {
                        assert(seq_compare(s[i as int].0.name, s[b - 1].0.name) < 0);
                        lemma_compare_trans(ev.0.name, s[i as int].0.name, s[b - 1].0.name);
                    }
                } else if a > i {
                    assert(r[a] == s[a - 1] && r[b] == s[b - 1]);
                } else {
                    assert(r[a] == s[a] && r[b] == s[b]);
                }
            }
            assert forall|k: Seq<char>| #[trigger] m2.contains_key(k) implies exists|j: int| 0 <= j < r.len() && r[j].0.name == k by {
                if k == ev.0.name {
                    assert(r[i as int].0.name == k);
                } else {
                    assert(m.contains_key(k));
                    let j = choose|j: int| 0 <= j < s.len() && s[j].0.name == k;
                    if j < i {
                        assert(r[j].0.name == k);
                    } else {
                        assert(r[j + 1].0.name == k);
                    }
                }
            }
            assert forall|j: int| 0 <= j < r.len() implies #[trigger] m2.contains_key(r[j].0.name) && m2[r[j].0.name] == r[j] by {
                if j < i {
                    assert(r[j] == s[j]);
                    assert(m.contains_key(s[j].0.name));
                    if s[j].0.name == ev.0.name {
                        lemma_compare_refl(ev.0.name);
                    }
                } else if j > i {
                    assert(r[j] == s[j - 1]);
                    assert(m.contains_key(s[j - 1].0.name));
                    if s[j - 1].0.name == ev.0.name {
                        lemma_compare_refl(ev.0.name);
                        lemma_compare_antisym(ev.0.name, ev.0.name);
                        if j - 1 > i {
                            assert(seq_compare(s[i as int].0.name, s[j - 1].0.name) < 0);
                            lemma_compare_trans(ev.0.name, s[i as int].0.name, s[j - 1].0.name);
                        }
                    }
                }
            }
        }
    }
}

impl PluginConfigStore {
    pub closed spec fn user_path_view(&self) -> Seq<char> {
        self.user_path@
    }

    pub closed spec fn project_path_view(&self) -> Seq<char> {
        self.project_path@
    }

    /// The two plugin files for a working directory and a home directory
    /// (the current directory when there is no home).
    pub fn new(workdir: &str, home: Option<&str>) -> (r: Self)
        ensures
            r.user_path_view() == crate::paths::path_join(
                match home {
                    Some(h) => h@,
                    None => "."@,
                },
                ".sacode/plugins.json"@,
            ),
            r.project_path_view() == crate::paths::path_join(workdir@, ".sacode/plugins.json"@),
    {
        let base = match home {
            Some(h) => h,
            None => ".",
        };
        PluginConfigStore {
            user_path: crate::paths::join_path(base, ".sacode/plugins.json"),
            project_path: crate::paths::join_path(workdir, ".sacode/plugins.json"),
        }
    }

    pub fn user_path(&self) -> (r: &str)
        ensures
            r@ == self.user_path_view(),
    {
        self.user_path.as_str()
    }

    pub fn project_path(&self) -> (r: &str)
        ensures
            r@ == self.project_path_view(),
    {
        self.project_path.as_str()
    }

    /// The file that holds the list of `source`.
    pub fn source_path(&self, source: PluginSource) -> (r: &str)
        ensures
            r@ == match source {
                PluginSource::User => self.user_path_view(),
                PluginSource::Project => self.project_path_view(),
            },
    {
        match source {
            PluginSource::User => self.user_path.as_str(),
            PluginSource::Project => self.project_path.as_str(),
        }
    }

    /// The plugins of both lists by name, in name order; a project entry
    /// replaces a user entry of the same name.
    pub fn list_entries(&self, user: &PluginConfigFile, project: &PluginConfigFile) -> (r: Vec<PluginResolvedEntry>)
        ensures
            lists_map(resolved_view(r@), by_name(tagged(user@, project@))),
    {
        let ghost all = tagged(user@, project@);
        let mut out: Vec<PluginResolvedEntry> = Vec::new();
        assert(resolved_view(out@) =~= Seq::<(PluginView, PluginSource)>::empty());
        assert(all.take(0) =~= Seq::<(PluginView, PluginSource)>::empty());
        let mut i: usize = 0;
        while i < user.plugins.len()
            invariant
                i <= user.plugins@.len(),
                all == tagged(user@, project@),
                lists_map(resolved_view(out@), by_name(all.take(i as int))),
            decreases user.plugins@.len() - i,
        {
            let e = PluginResolvedEntry { plugin: user.plugins[i].copy(), source: PluginSource::User };
            proof {
                assert(all.take(i + 1).drop_last() =~= all.take(i as int));
                assert(all.take(i + 1).last() == e@);
            }
            put_by_name(&mut out, e, Ghost(by_name(all.take(i as int))));
            i = i + 1;
        }
        let n = user.plugins.len();
        let mut j: usize = 0;
        while j < project.plugins.len()
            invariant
                j <= project.plugins@.len(),
                n == user@.len(),
                all == tagged(user@, project@),
                lists_map(resolved_view(out@), by_name(all.take(n + j))),
            decreases project.plugins@.len() - j,
        {
            let e = PluginResolvedEntry { plugin: project.plugins[j].copy(), source: PluginSource::Project };
            proof {
                assert(all.take(n + j + 1).drop_last() =~= all.take(n + j));
                assert(all.take(n + j + 1).last() == e@);
            }
            put_by_name(&mut out, e, Ghost(by_name(all.take(n + j))));
            j = j + 1;
        }
        assert(all.take(n + project@.len()) =~= all);
        out
    }
}

// ---------------------------------------------------------------------
// Editing one list
// ---------------------------------------------------------------------

/// The index of the first plugin with this name, or -1.
pub open spec fn find_plugin(s: Seq<PluginView>, name: Seq<char>) -> int
    decreases s.len(),
{
    if s.len() == 0 {
        -1
    } else if s[0].name == name {
        0
    } else {
        let k = find_plugin(s.drop_first(), name);
        if k < 0 { -1 } else { k + 1 }
    }
}

pub proof fn lemma_find_plugin_bounds(s: Seq<PluginView>, name: Seq<char>)
    ensures
        -1 <= find_plugin(s, name) < s.len(),
        find_plugin(s, name) >= 0 ==> s[find_plugin(s, name)].name == name,
        find_plugin(s, name) >= 0 ==> forall|j: int| 0 <= j < find_plugin(s, name) ==> s[j].name != name,
        find_plugin(s, name) < 0 ==> forall|j: int| 0 <= j < s.len() ==> s[j].name != name,
    decreases s.len(),
{
    if s.len() > 0 && s[0].name != name {
        lemma_find_plugin_bounds(s.drop_first(), name);
        assert forall|j: int| 1 <= j < s.len() implies s[j] == s.drop_first()[j - 1] by {}
    }
}

/// Where a stable insertion by name puts `x` into `s`.
pub open spec fn plugin_insert_pos(s: Seq<PluginView>, x: PluginView) -> int
    decreases s.len(),
{
    if s.len() > 0 && seq_compare(s.last().name, x.name) > 0 {
        plugin_insert_pos(s.drop_last(), x)
    } else {
        s.len() as int
    }
}

/// The plugins in the order a stable sort by name gives them.
pub open spec fn sort_plugins(s: Seq<PluginView>) -> Seq<PluginView>
    decreases s.len(),
{
    if s.len() == 0 {
        s
    } else {
        let t = sort_plugins(s.drop_last());
        t.insert(plugin_insert_pos(t, s.last()), s.last())
    }
}

/// The list with `p` replacing the first entry of its name, or added at the
/// end, before sorting.
pub open spec fn upserted(s: Seq<PluginView>, p: PluginView) -> Seq<PluginView> {
    let k = find_plugin(s, p.name);
    if k >= 0 { s.update(k, p) } else { s.push(p) }
}

/// The plugins not named `name`, in order.
pub open spec fn without_name(s: Seq<PluginView>, name: Seq<char>) -> Seq<PluginView>
    decreases s.len(),
{
    if s.len() == 0 {
        s
    } else if s.last().name == name {
        without_name(s.drop_last(), name)
    } else {
        without_name(s.drop_last(), name).push(s.last())
    }
}

proof fn lemma_plugin_insert_pos_bounds(s: Seq<PluginView>, x: PluginView)
    ensures
        0 <= plugin_insert_pos(s, x) <= s.len(),
    decreases s.len(),
{
    if s.len() > 0 && seq_compare(s.last().name, x.name) > 0 {
        lemma_plugin_insert_pos_bounds(s.drop_last(), x);
    }
}

proof fn lemma_sort_plugins_len(s: Seq<PluginView>)
    ensures
        sort_plugins(s).len() == s.len(),
    decreases s.len(),
{
    if s.len() > 0 {
        lemma_sort_plugins_len(s.drop_last());
        lemma_plugin_insert_pos_bounds(sort_plugins(s.drop_last()), s.last());
    }
}

proof fn lemma_plugins_insert(v: Seq<PluginEntry>, p: int, x: PluginEntry)
    requires
        0 <= p <= v.len(),
    ensures
        plugins_view(v.insert(p, x)) == plugins_view(v).insert(p, x@),
{
    assert(plugins_view(v.insert(p, x)) =~= plugins_view(v).insert(p, x@));
}

/// Sorts plugins by name, keeping the order of equal names.
fn sort_plugin_entries(v: &Vec<PluginEntry>) -> (r: Vec<PluginEntry>)
    ensures
        plugins_view(r@) == sort_plugins(plugins_view(v@)),
{
    let ghost all = plugins_view(v@);
    let mut out: Vec<PluginEntry> = Vec::new();
    let mut i: usize = 0;
    assert(all.take(0) =~= Seq::<PluginView>::empty());
    assert(plugins_view(out@) =~= Seq::<PluginView>::empty());
    while i < v.len()
        invariant
            i <= v@.len(),
            all == plugins_view(v@),
            plugins_view(out@) == sort_plugins(all.take(i as int)),
        decreases v@.len() - i,
    {
        let x = v[i].copy();
        let ghost cur = plugins_view(out@);
        proof {
            lemma_sort_plugins_len(all.take(i as int));
        }
        let mut j: usize = out.len();
        assert(cur.take(j as int) =~= cur);
        while j > 0 && compare_str(out[j - 1].name.as_str(), x.name.as_str()) > 0
            invariant
                j <= out@.len(),
                cur == plugins_view(out@),
                plugin_insert_pos(cur, x@) == plugin_insert_pos(cur.take(j as int), x@),
            decreases j,
        {
            proof {
                assert(cur.take(j as int).drop_last() =~= cur.take(j - 1));
                assert(cur.take(j as int).last() == out@[j - 1]@);
            }
            j = j - 1;
        }
        proof {
            if j > 0 {
                assert(cur.take(j as int).last() == out@[j - 1]@);
            }
            assert(plugin_insert_pos(cur.take(j as int), x@) == j);
            assert(all.take(i + 1).drop_last() =~= all.take(i as int));
            assert(all.take(i + 1).last() == x@);
            lemma_plugins_insert(out@, j as int, x);
        }
        out.insert(j, x);
        i = i + 1;
    }
    assert(all.take(v@.len() as int) =~= all);
    out
}

/// Executable `find_plugin`.
fn find_plugin_index(v: &Vec<PluginEntry>, name: &str) -> (r: Option<usize>)
    ensures
        match r {
            Some(k) => find_plugin(plugins_view(v@), name@) == k,
            None => find_plugin(plugins_view(v@), name@) == -1,
        },
{
    let ghost all = plugins_view(v@);
    let mut i: usize = 0;
    assert(all.skip(0) =~= all);
    while i < v.len()
        invariant
            i <= v@.len(),
            all == plugins_view(v@),
            find_plugin(all, name@) == (if find_plugin(all.skip(i as int), name@) < 0 { -1 } else {
                find_plugin(all.skip(i as int), name@) + i
            }),
        decreases v@.len() - i,
    {
        assert(all.skip(i as int)[0] == all[i as int]);
        if v[i].name.eq(&String::from_str(name)) {
            return Some(i);
        }
        assert(all.skip(i as int).drop_first() =~= all.skip(i + 1));
        i = i + 1;
    }
    None
}

impl PluginConfigStore {
    /// Puts `plugin` into the list, replacing the first entry of the same
    /// name (or adding it), then orders the list by name.
    pub fn upsert(&self, config: &mut PluginConfigFile, plugin: PluginEntry)
        ensures
            final(config)@ == sort_plugins(upserted(old(config)@, plugin@)),
    {
        proof {
            lemma_find_plugin_bounds(config@, plugin@.name);
        }
        let ghost pv = plugin@;
        match find_plugin_index(&config.plugins, plugin.name.as_str()) {
            Some(k) => {
                let ghost before = config.plugins@;
                config.plugins.set(k, plugin);
                assert(plugins_view(config.plugins@) =~= plugins_view(before).update(k as int, pv));
            },
            None => {
                let ghost before = config.plugins@;
                config.plugins.push(plugin);
                assert(plugins_view(config.plugins@) =~= plugins_view(before).push(pv));
            },
        }
        let sorted = sort_plugin_entries(&config.plugins);
        config.plugins = sorted;
    }

    /// Drops every entry with this name; refused when there is none.
    pub fn remove(&self, config: &mut PluginConfigFile, name: &str) -> (r: Result<(), PluginConfigError>)
        ensures
            without_name(old(config)@, name@).len() == old(config)@.len() ==> (r matches Err(
                PluginConfigError::NotFound(n),
            ) && n@ == name@ && final(config)@ == old(config)@),
            without_name(old(config)@, name@).len() < old(config)@.len() ==> (r is Ok
                && final(config)@ == without_name(old(config)@, name@)),
    {
        let ghost all = config@;
        let mut kept: Vec<PluginEntry> = Vec::new();
        let target = String::from_str(name);
        let mut i: usize = 0;
        assert(all.take(0) =~= Seq::<PluginView>::empty());
        assert(plugins_view(kept@) =~= Seq::<PluginView>::empty());
        while i < config.plugins.len()
            invariant
                i <= config.plugins@.len(),
                all == config@,
                target@ == name@,
                plugins_view(kept@) == without_name(all.take(i as int), name@),
            decreases config.plugins@.len() - i,
        {
            assert(all.take(i + 1).drop_last() =~= all.take(i as int));
            if !config.plugins[i].name.eq(&target) {
                let e = config.plugins[i].copy();
                let ghost prev = kept@;
                kept.push(e);
                proof {
                    prev.lemma_push_map_commute(|p: PluginEntry| p@, e);
                }
            }
            i = i + 1;
        }
        assert(all.take(all.len() as int) =~= all);
        if kept.len() == config.plugins.len() {
            return Err(PluginConfigError::NotFound(target));
        }
        config.plugins = kept;
        Ok(())
    }

    /// Sets the `enabled` flag of the first entry with this name.
    pub fn set_enabled(&self, config: &mut PluginConfigFile, name: &str, enabled: bool) -> (r: Result<(), PluginConfigError>)
        ensures
            find_plugin(old(config)@, name@) < 0 ==> (r matches Err(PluginConfigError::NotFound(n))
                && n@ == name@ && final(config)@ == old(config)@),
            find_plugin(old(config)@, name@) >= 0 ==> (r is Ok && final(config)@ == old(config)@.update(
                find_plugin(old(config)@, name@),
                PluginView { enabled, ..old(config)@[find_plugin(old(config)@, name@)] },
            )),
    {
        proof {
            lemma_find_plugin_bounds(config@, name@);
        }
        match find_plugin_index(&config.plugins, name) {
            None => Err(PluginConfigError::NotFound(String::from_str(name))),
            Some(k) => {
                let updated = PluginEntry {
                    name: config.plugins[k].name.clone(),
                    version: config.plugins[k].version.clone(),
                    enabled,
                };
                let ghost before = config.plugins@;
                let ghost uv = updated@;
                config.plugins.set(k, updated);
                assert(plugins_view(config.plugins@) =~= plugins_view(before).update(k as int, uv));
                Ok(())
            },
        }
    }
}


/// A plugin entry without an `enabled` field is enabled.
pub fn default_true() -> (r: bool)
    ensures
        r,
{
    true
}


// ---------------------------------------------------------------------
// Laws
// ---------------------------------------------------------------------

/// In the merge by name, the last entry with a given name is the one kept.
proof fn lemma_by_name_last(s: Seq<(PluginView, PluginSource)>, k: int)
    requires
        0 <= k < s.len(),
        forall|j: int| k < j < s.len() ==> #[trigger] s[j].0.name != s[k].0.name,
    ensures
        by_name(s).contains_key(s[k].0.name),
        by_name(s)[s[k].0.name] == s[k],
    decreases s.len(),
{
    if k < s.len() - 1 {
        let d = s.drop_last();
        assert forall|j: int| k < j < d.len() implies #[trigger] d[j].0.name != d[k].0.name by {
            assert(d[j] == s[j]);
        }
        lemma_by_name_last(d, k);
        assert(s.last().0.name != s[k].0.name);
    }
}

/// A plugin listed in the project file is listed with the project's entry,
/// whatever the user file says of a plugin of the same name (the last
/// project entry of that name counts).
pub proof fn law_project_entry_wins(user: Seq<PluginView>, project: Seq<PluginView>, i: int)
    requires
        0 <= i < project.len(),
        forall|j: int| i < j < project.len() ==> #[trigger] project[j].name != project[i].name,
    ensures
        by_name(tagged(user, project)).contains_key(project[i].name),
        by_name(tagged(user, project))[project[i].name] == (project[i], PluginSource::Project),
{
    let t = tagged(user, project);
    let k = user.len() + i;
    assert(t[k] == (project[i], PluginSource::Project));
    assert forall|j: int| k < j < t.len() implies #[trigger] t[j].0.name != t[k].0.name by {
        assert(t[j] == (project[j - user.len()], PluginSource::Project));
    }
    lemma_by_name_last(t, k);
}

/// A plugin only the user file lists is listed with the user's entry (the
/// last user entry of that name counts).
pub proof fn law_user_entry_kept_without_project_entry(user: Seq<PluginView>, project: Seq<PluginView>, i: int)
    requires
        0 <= i < user.len(),
        forall|j: int| i < j < user.len() ==> #[trigger] user[j].name != user[i].name,
        forall|j: int| 0 <= j < project.len() ==> #[trigger] project[j].name != user[i].name,
    ensures
        by_name(tagged(user, project)).contains_key(user[i].name),
        by_name(tagged(user, project))[user[i].name] == (user[i], PluginSource::User),
{
    let t = tagged(user, project);
    assert(t[i] == (user[i], PluginSource::User));
    assert forall|j: int| i < j < t.len() implies #[trigger] t[j].0.name != t[i].0.name by {
        if j < user.len() {
            assert(t[j] == (user[j], PluginSource::User));
        } else {
            assert(t[j] == (project[j - user.len()], PluginSource::Project));
        }
    }
    lemma_by_name_last(t, i);
}


proof fn lemma_sort_plugins_keeps(s: Seq<PluginView>, x: PluginView)
    requires
        s.contains(x),
    ensures
        sort_plugins(s).contains(x),
    decreases s.len(),
{
    let d = s.drop_last();
    let t = sort_plugins(d);
    lemma_plugin_insert_pos_bounds(t, s.last());
    let pos = plugin_insert_pos(t, s.last());
    let r = t.insert(pos, s.last());
    if x == s.last() {
        assert(r[pos] == x);
    } else {
        let k = choose|k: int| 0 <= k < s.len() && s[k] == x;
        assert(k < s.len() - 1);
        assert(d[k] == x);
        lemma_sort_plugins_keeps(d, x);
        let j = choose|j: int| 0 <= j < t.len() && t[j] == x;
        if j < pos {
            assert(r[j] == x);
        } else {
            assert(r[j + 1] == x);
        }
    }
}

/// After a plugin is installed into a file (or updated there), the file
/// lists it.
pub proof fn law_upsert_lists_the_plugin(s: Seq<PluginView>, p: PluginView)
    ensures
        sort_plugins(upserted(s, p)).contains(p),
{
    lemma_find_plugin_bounds(s, p.name);
    let u = upserted(s, p);
    let k = find_plugin(s, p.name);
    if k >= 0 {
        assert(u[k] == p);
    } else {
        assert(u[s.len() as int] == p);
    }
    lemma_sort_plugins_keeps(u, p);
}

/// Removing a plugin from a file drops every entry of that name and keeps
/// the others, in order.
pub proof fn law_remove_drops_exactly_that_name(s: Seq<PluginView>, name: Seq<char>)
    ensures
        forall|i: int| 0 <= i < without_name(s, name).len() ==> #[trigger] without_name(s, name)[i].name != name,
        forall|x: PluginView| s.contains(x) && x.name != name ==> #[trigger] without_name(s, name).contains(x),
    decreases s.len(),
{
    if s.len() > 0 {
        let d = s.drop_last();
        law_remove_drops_exactly_that_name(d, name);
        let w = without_name(d, name);
        assert forall|x: PluginView| s.contains(x) && x.name != name implies #[trigger] without_name(s, name).contains(x) by {
            if x == s.last() {
                assert(without_name(s, name) == w.push(x));
                assert(without_name(s, name)[w.len() as int] == x);
            } else {
                let k = choose|k: int| 0 <= k < s.len() && s[k] == x;
                assert(d[k] == x);
                assert(d.contains(x));
                assert(without_name(d, name).contains(x));
                let j = choose|j: int| 0 <= j < w.len() && w[j] == x;
                if s.last().name != name {
                    assert(without_name(s, name) == w.push(s.last()));
                    assert(without_name(s, name)[j] == x);
                } else {
                    assert(without_name(s, name) == w);
                }
            }
        }
    }
}

} // verus!
