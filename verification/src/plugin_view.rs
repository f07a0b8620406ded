//! How the plugin screen presents plugins: the fields shown for a
//! configured entry, the search filter, and the merged, sorted listing.

use vstd::prelude::*;
use crate::text::{trim, trim_str, contains, contains_chars, to_chars, to_lowercase, unicode_lowercase};
use crate::order::{seq_compare, compare_str};
use crate::plugin_config::{PluginSource, PluginConfigStore};
use crate::task_store::strings_view;

verus! {

/// The version shown for a configured plugin: the trimmed text, or none.
pub fn normalized_version(version: &str) -> (r: Option<String>)
    ensures
        match r {
            Some(s) => trim(version@).len() > 0 && s@ == trim(version@),
            None => trim(version@).len() == 0,
        },
{
    let t = trim_str(version);
    if t.as_str().unicode_len() == 0 {
        None
    } else {
        Some(t)
    }
}

/// The description shown for a configured plugin: the trimmed text, or a
/// fixed placeholder.
pub fn configured_description(description: &str) -> (r: String)
    ensures
        r@ == (if trim(description@).len() == 0 {
            "Configured plugin entry"@
        } else {
            trim(description@)
        }),
{
    let t = trim_str(description);
    if t.as_str().unicode_len() == 0 {
        String::from_str("Configured plugin entry")
    } else {
        t
    }
}

/// The kinds a configured plugin may declare.
#[derive(Debug, Clone, Copy, PartialEq, Eq, Structural)]
pub enum ConfiguredKind {
    Builtin,
    Mcp,
    Configured,
}

/// The kind named by a configured entry, read case-insensitively with the
/// surrounding blanks ignored; anything else is a plain configured plugin.
pub open spec fn kind_of(kind: Seq<char>) -> ConfiguredKind {
    let k = unicode_lowercase(trim(kind));
    if k == "builtin"@ {
        ConfiguredKind::Builtin
    } else if k == "mcp"@ {
        ConfiguredKind::Mcp
    } else {
        ConfiguredKind::Configured
    }
}

/// Executable `kind_of`.
pub fn configured_kind(kind: &str) -> (r: ConfiguredKind)
    ensures
        r == kind_of(kind@),
{
    let t = trim_str(kind);
    let k = to_lowercase(t.as_str());
    let c = to_chars(k.as_str());
    let b = to_chars("builtin");
    let m = to_chars("mcp");
    if crate::text::chars_eq(&c, &b) {
        ConfiguredKind::Builtin
    } else if crate::text::chars_eq(&c, &m) {
        ConfiguredKind::Mcp
    } else {
        ConfiguredKind::Configured
    }
}

/// Where a configured plugin came from, as shown: its trimmed source
/// reference, or the label of the file that lists it.
pub fn configured_source_label(source_ref: &str, source: PluginSource) -> (r: String)
    ensures
        r@ == (if trim(source_ref@).len() == 0 {
            source.label_text()
        } else {
            trim(source_ref@)
        }),
{
    let t = trim_str(source_ref);
    if t.as_str().unicode_len() == 0 {
        String::from_str(source.label())
    } else {
        t
    }
}

/// A plugin file is the user's if it is the user file, else the project's.
pub fn source_from_plugin_path(store: &PluginConfigStore, plugin_file: &str) -> (r: PluginSource)
    ensures
        r == (if plugin_file@ == store.user_path_view() {
            PluginSource::User
        } else {
            PluginSource::Project
        }),
{
    let a = to_chars(plugin_file);
    let b = to_chars(store.user_path());
    if crate::text::chars_eq(&a, &b) {
        PluginSource::User
    } else {
        PluginSource::Project
    }
}

/// One row of the plugin screen.
#[derive(Debug)]
pub struct TuiPluginEntry {
    pub name: String,
    pub description: String,
    pub kind: String,
    pub source: String,
    pub enabled: bool,
    pub version: Option<String>,
    pub tags: Option<Vec<String>>,
}

pub ghost struct ListingView {
    pub name: Seq<char>,
    pub description: Seq<char>,
    pub kind: Seq<char>,
    pub source: Seq<char>,
    pub enabled: bool,
    pub version: Option<Seq<char>>,
    pub tags: Option<Seq<Seq<char>>>,
}

impl View for TuiPluginEntry {
    type V = ListingView;

    open spec fn view(&self) -> ListingView {
        ListingView {
            name: self.name@,
            description: self.description@,
            kind: self.kind@,
            source: self.source@,
            enabled: self.enabled,
            version: crate::task_store::opt_view(self.version),
            tags: match self.tags {
                Some(t) => Some(crate::task_store::strings_view(t@)),
                None => None,
            },
        }
    }
}

/// The views of a listing.
pub open spec fn listings_view(v: Seq<TuiPluginEntry>) -> Seq<ListingView> {
    v.map_values(|e: TuiPluginEntry| e@)
}

/// `text`, lowercased, contains `needle`.
pub open spec fn mentions(text: Seq<char>, needle: Seq<char>) -> bool {
    contains(unicode_lowercase(text), needle)
}

/// One of the texts, lowercased, contains `needle`.
pub open spec fn any_mentions(texts: Seq<Seq<char>>, needle: Seq<char>) -> bool {
    exists|i: int| 0 <= i < texts.len() && mentions(#[trigger] texts[i], needle)
}

/// A plugin matches a search when its name, description, kind, source or
/// one of its tags contains the query, all compared in lowercase.
pub open spec fn matches_query(e: ListingView, query: Seq<char>) -> bool {
    let needle = unicode_lowercase(query);
    ||| mentions(e.name, needle)
    ||| mentions(e.description, needle)
    ||| mentions(e.kind, needle)
    ||| mentions(e.source, needle)
    ||| match e.tags {
        Some(tags) => any_mentions(tags, needle),
        None => false,
    }
}

fn mentions_exec(text: &str, needle: &[char]) -> (r: bool)
    ensures
        r == mentions(text@, needle@),
{
    let lower = to_lowercase(text);
    let hay = to_chars(lower.as_str());
    contains_chars(&hay, needle)
}

/// Executable `matches_query`.
pub fn plugin_matches(entry: &TuiPluginEntry, query: &str) -> (r: bool)
    ensures
        r == matches_query(entry@, query@),
{
    let lower = to_lowercase(query);
    let needle = to_chars(lower.as_str());
    if mentions_exec(entry.name.as_str(), &needle) || mentions_exec(entry.description.as_str(), &needle)
        || mentions_exec(entry.kind.as_str(), &needle) || mentions_exec(entry.source.as_str(), &needle) {
        return true;
    }
    match &entry.tags {
        Some(tags) => {
            let ghost tv = crate::task_store::strings_view(tags@);
            let mut i: usize = 0;
            assert(entry@.tags == Some(tv));
            while i < tags.len()
                invariant
                    i <= tags@.len(),
                    entry@.tags == Some(tv),
                    tv == crate::task_store::strings_view(tags@),
                    needle@ == unicode_lowercase(query@),
                    forall|j: int| 0 <= j < i ==> !mentions(#[trigger] tv[j], needle@),
                decreases tags@.len() - i,
            {
                if mentions_exec(tags[i].as_str(), &needle) {
                    assert(mentions(tv[i as int], needle@));
                    assert(any_mentions(tv, needle@));
                    return true;
                }
                i = i + 1;
            }
            false
        },
        None => false,
    }
}

// ---------------------------------------------------------------------
// The merged listing
// ---------------------------------------------------------------------

/// Two rows describe the same plugin: same name, kind and source.
pub open spec fn same_plugin(a: ListingView, b: ListingView) -> bool {
    a.name == b.name && a.kind == b.kind && a.source == b.source
}

/// Where a stable insertion sort by name puts `x` into the sorted `s`.
pub open spec fn listing_insert_pos(s: Seq<ListingView>, x: ListingView) -> int
    decreases s.len(),
{
    if s.len() > 0 && seq_compare(s.last().name, x.name) > 0 {
        listing_insert_pos(s.drop_last(), x)
    } else {
        s.len() as int
    }
}

/// The rows ordered by name, rows of equal name keeping their order.
pub open spec fn sort_listings(s: Seq<ListingView>) -> Seq<ListingView>
    decreases s.len(),
{
    if s.len() == 0 {
        s
    } else {
        let t = sort_listings(s.drop_last());
        t.insert(listing_insert_pos(t, s.last()), s.last())
    }
}

/// Each run of consecutive rows for the same plugin cut to its first row.
pub open spec fn dedup_runs(s: Seq<ListingView>) -> Seq<ListingView>
    decreases s.len(),
{
    if s.len() == 0 {
        s
    } else {
        let t = dedup_runs(s.drop_last());
        if t.len() > 0 && same_plugin(t.last(), s.last()) {
            t
        } else {
            t.push(s.last())
        }
    }
}

proof fn lemma_listing_insert_pos_bounds(s: Seq<ListingView>, x: ListingView)
    ensures
        0 <= listing_insert_pos(s, x) <= s.len(),
    decreases s.len(),
{
    if s.len() > 0 && seq_compare(s.last().name, x.name) > 0 {
        lemma_listing_insert_pos_bounds(s.drop_last(), x);
    }
}

proof fn lemma_sort_listings_len(s: Seq<ListingView>)
    ensures
        sort_listings(s).len() == s.len(),
    decreases s.len(),
{
    if s.len() > 0 {
        lemma_sort_listings_len(s.drop_last());
        lemma_listing_insert_pos_bounds(sort_listings(s.drop_last()), s.last());
    }
}

proof fn lemma_listings_insert(v: Seq<TuiPluginEntry>, p: int, x: TuiPluginEntry)
    requires
        0 <= p <= v.len(),
    ensures
        listings_view(v.insert(p, x)) == listings_view(v).insert(p, x@),
{
    assert(listings_view(v.insert(p, x)) =~= listings_view(v).insert(p, x@));
}

/// Orders the rows by name (a stable sort).
fn sort_by_name(rows: Vec<TuiPluginEntry>) -> (r: Vec<TuiPluginEntry>)
    ensures
        listings_view(r@) == sort_listings(listings_view(rows@)),
{
    let ghost all = listings_view(rows@);
    let mut rest = rows;
    let mut out: Vec<TuiPluginEntry> = Vec::new();
    let n: usize = rest.len();
    let mut i: usize = 0;
    assert(all.take(0) =~= Seq::<ListingView>::empty());
    assert(listings_view(out@) =~= Seq::<ListingView>::empty());
    assert(listings_view(rest@) =~= all.subrange(0, n as int));
    while rest.len() > 0
        invariant
            i + rest@.len() == n,
            n == all.len(),
            listings_view(rest@) == all.subrange(i as int, n as int),
            listings_view(out@) == sort_listings(all.take(i as int)),
        decreases rest@.len(),
    {
        let ghost before = listings_view(rest@);
        let x = rest.remove(0);
        proof {
            assert(listings_view(rest@) =~= before.drop_first());
            assert(x@ == before[0]);
            assert(before[0] == all[i as int]);
            assert(all.subrange(i + 1, n as int) =~= before.drop_first());
        }
        let ghost cur = listings_view(out@);
        proof {
            lemma_sort_listings_len(all.take(i as int));
        }
        let mut j: usize = out.len();
        assert(cur.take(j as int) =~= cur);
        while j > 0 && compare_str(out[j - 1].name.as_str(), x.name.as_str()) > 0
            invariant
                j <= out@.len(),
                cur == listings_view(out@),
                listing_insert_pos(cur, x@) == listing_insert_pos(cur.take(j as int), x@),
            decreases j,
        {
            proof {
                assert(cur.take(j as int).drop_last() =~= cur.take(j - 1));
                assert(cur.take(j as int).last() == out@[j - 1]@);
            }
            j = j - 1;
        }
        proof {
            if j > 0 {
                assert(cur.take(j as int).last() == out@[j - 1]@);
            }
            assert(listing_insert_pos(cur.take(j as int), x@) == j);
            assert(all.take(i + 1).drop_last() =~= all.take(i as int));
            assert(all.take(i + 1).last() == x@);
            lemma_listings_insert(out@, j as int, x);
        }
        out.insert(j, x);
        i = i + 1;
    }
    assert(all.take(n as int) =~= all);
    out
}

fn same_text(a: &str, b: &str) -> (r: bool)
    ensures
        r == (a@ == b@),
{
    crate::text::chars_eq(&to_chars(a), &to_chars(b))
}

fn same_row(a: &TuiPluginEntry, b: &TuiPluginEntry) -> (r: bool)
    ensures
        r == same_plugin(a@, b@),
{
    same_text(a.name.as_str(), b.name.as_str()) && same_text(a.kind.as_str(), b.kind.as_str())
        && same_text(a.source.as_str(), b.source.as_str())
}

/// The plugin screen's listing: the rows ordered by name, with repeated rows
/// for the same plugin (same name, kind and source) next to each other cut
/// to the first.
pub fn merge_plugin_entries(rows: Vec<TuiPluginEntry>) -> (r: Vec<TuiPluginEntry>)
    ensures
        listings_view(r@) == dedup_runs(sort_listings(listings_view(rows@))),
{
    let sorted = sort_by_name(rows);
    let ghost all = listings_view(sorted@);
    let mut rest = sorted;
    let n: usize = rest.len();
    assert(listings_view(rest@) =~= all.subrange(0, n as int));
    let mut out: Vec<TuiPluginEntry> = Vec::new();
    let mut i: usize = 0;
    assert(all.take(0) =~= Seq::<ListingView>::empty());
    assert(listings_view(out@) =~= Seq::<ListingView>::empty());
    while rest.len() > 0
        invariant
            i + rest@.len() == n,
            n == all.len(),
            listings_view(rest@) == all.subrange(i as int, n as int),
            listings_view(out@) == dedup_runs(all.take(i as int)),
        decreases rest@.len(),
    {
        let ghost before = listings_view(rest@);
        let x = rest.remove(0);
        proof {
            assert(listings_view(rest@) =~= before.drop_first());
            assert(x@ == before[0]);
            assert(before[0] == all[i as int]);
            assert(all.subrange(i + 1, n as int) =~= before.drop_first());
            assert(all.take(i + 1).drop_last() =~= all.take(i as int));
            assert(all.take(i + 1).last() == x@);
        }
        let k = out.len();
        let dup = k > 0 && same_row(&out[k - 1], &x);
        proof {
            if k > 0 {
                assert(listings_view(out@).last() == out@[k - 1]@);
            }
        }
        if !dup {
            let ghost prev = out@;
            out.push(x);
            proof {
                prev.lemma_push_map_commute(|e: TuiPluginEntry| e@, x);
            }
        }
        i = i + 1;
    }
    assert(all.take(n as int) =~= all);
    out
}


// ---------------------------------------------------------------------
// The `/plugin` command line
// ---------------------------------------------------------------------

/// What a `/plugin` line asks for.
#[derive(Debug)]
pub enum PluginCommand {
    List,
    Install(String),
    Search(String),
    Show(String),
    Remove(String),
    Enable(String),
    Disable(String),
    /// The line is incomplete or unknown; the usage text to show.
    Usage(String),
}

pub ghost enum PluginCommandView {
    List,
    Install(Seq<char>),
    Search(Seq<char>),
    Show(Seq<char>),
    Remove(Seq<char>),
    Enable(Seq<char>),
    Disable(Seq<char>),
    Usage(Seq<char>),
}

impl View for PluginCommand {
    type V = PluginCommandView;

    open spec fn view(&self) -> PluginCommandView {
        match self {
            PluginCommand::List => PluginCommandView::List,
            PluginCommand::Install(s) => PluginCommandView::Install(s@),
            PluginCommand::Search(s) => PluginCommandView::Search(s@),
            PluginCommand::Show(s) => PluginCommandView::Show(s@),
            PluginCommand::Remove(s) => PluginCommandView::Remove(s@),
            PluginCommand::Enable(s) => PluginCommandView::Enable(s@),
            PluginCommand::Disable(s) => PluginCommandView::Disable(s@),
            PluginCommand::Usage(s) => PluginCommandView::Usage(s@),
        }
    }
}

/// The line mentions `--global` or `-g`: the user's plugin file is meant.
pub open spec fn global_flag(w: Seq<Seq<char>>) -> bool {
    exists|i: int| 0 <= i < w.len() && (w[i] == "--global"@ || w[i] == "-g"@)
}

/// The request of a `/plugin` line, from its words: no sub-command or
/// `list` lists; the others need a name (a keyword for `search`).
pub open spec fn plugin_command_of(w: Seq<Seq<char>>) -> PluginCommandView {
    if w.len() <= 1 || w[1] == "list"@ {
        PluginCommandView::List
    } else if w[1] == "install"@ {
        if w.len() > 2 { PluginCommandView::Install(w[2]) } else { PluginCommandView::Usage("用法: /plugin install <name> [--global|-g]"@) }
    } else if w[1] == "search"@ {
        if w.len() > 2 { PluginCommandView::Search(w[2]) } else { PluginCommandView::Usage("用法: /plugin search <keyword>"@) }
    } else if w[1] == "show"@ {
        if w.len() > 2 { PluginCommandView::Show(w[2]) } else { PluginCommandView::Usage("用法: /plugin show <name>"@) }
    } else if w[1] == "remove"@ {
        if w.len() > 2 { PluginCommandView::Remove(w[2]) } else { PluginCommandView::Usage("用法: /plugin remove <name> [--global|-g]"@) }
    } else if w[1] == "enable"@ {
        if w.len() > 2 { PluginCommandView::Enable(w[2]) } else { PluginCommandView::Usage("用法: /plugin enable <name> [--global|-g]"@) }
    } else if w[1] == "disable"@ {
        if w.len() > 2 { PluginCommandView::Disable(w[2]) } else { PluginCommandView::Usage("用法: /plugin disable <name> [--global|-g]"@) }
    } else {
        PluginCommandView::Usage("用法: /plugin list|search|show|install|remove|enable|disable [--global|-g]"@)
    }
}

fn word_is(w: &Vec<String>, i: usize, lit: &str) -> (r: bool)
    requires
        i < w@.len(),
    ensures
        r == (w@[i as int]@ == lit@),
{
    same_text(w[i].as_str(), lit)
}

/// Reads a `/plugin` line: whether it names the user's file, and what it
/// asks for.
#[verifier::rlimit(30)]
pub fn parse_plugin_command(line: &str) -> (r: (bool, PluginCommand))
    ensures
        r.0 == global_flag(crate::words::words(line@)),
        r.1@ == plugin_command_of(crate::words::words(line@)),
{
    let w = crate::words::split_whitespace(line);
    let ghost wv = strings_view(w@);
    assert(wv == crate::words::words(line@));
    let mut global = false;
    let mut i: usize = 0;
    while i < w.len()
        invariant
            i <= w@.len(),
            wv == strings_view(w@),
            global == exists|j: int| 0 <= j < i && (wv[j] == "--global"@ || wv[j] == "-g"@),
        decreases w@.len() - i,
    {
        if word_is(&w, i, "--global") || word_is(&w, i, "-g") {
            global = true;
        }
        proof {
            assert(wv[i as int] == w@[i as int]@);
            if !global {
                assert forall|j: int| 0 <= j < i + 1 implies !(wv[j] == "--global"@ || wv[j] == "-g"@) by {
                    if j < i {
                        assert(!(exists|k: int| 0 <= k < i && (wv[k] == "--global"@ || wv[k] == "-g"@)));
                    }
                }
            }
        }
        i = i + 1;
    }
    let n = w.len();
    proof {
        if n > 1 {
            assert(wv[1] == w@[1]@);
        }
        if n > 2 {
            assert(wv[2] == w@[2]@);
        }
    }
    let cmd = if n <= 1 || word_is(&w, 1, "list") {
        PluginCommand::List
    } else if word_is(&w, 1, "install") {
        if n > 2 { PluginCommand::Install(w[2].clone()) } else { PluginCommand::Usage(String::from_str("用法: /plugin install <name> [--global|-g]")) }
    } else if word_is(&w, 1, "search") {
        if n > 2 { PluginCommand::Search(w[2].clone()) } else { PluginCommand::Usage(String::from_str("用法: /plugin search <keyword>")) }
    } else if word_is(&w, 1, "show") {
        if n > 2 { PluginCommand::Show(w[2].clone()) } else { PluginCommand::Usage(String::from_str("用法: /plugin show <name>")) }
    } else if word_is(&w, 1, "remove") {
        if n > 2 { PluginCommand::Remove(w[2].clone()) } else { PluginCommand::Usage(String::from_str("用法: /plugin remove <name> [--global|-g]")) }
    } else if word_is(&w, 1, "enable") {
        if n > 2 { PluginCommand::Enable(w[2].clone()) } else { PluginCommand::Usage(String::from_str("用法: /plugin enable <name> [--global|-g]")) }
    } else if word_is(&w, 1, "disable") {
        if n > 2 { PluginCommand::Disable(w[2].clone()) } else { PluginCommand::Usage(String::from_str("用法: /plugin disable <name> [--global|-g]")) }
    } else {
        PluginCommand::Usage(String::from_str("用法: /plugin list|search|show|install|remove|enable|disable [--global|-g]"))
    };
    (global, cmd)
}


// ---------------------------------------------------------------------
// Texts of the plugin screen
// ---------------------------------------------------------------------

/// The details of a plugin found locally: name, description, kind, source
/// and whether it is enabled, then its version and its tags when it has
/// them.
pub open spec fn detail_lines(e: ListingView) -> Seq<Seq<char>> {
    seq![
        "Name: "@ + e.name,
        "Description: "@ + e.description,
        "Kind: "@ + e.kind,
        "Source: "@ + e.source,
        "Enabled: "@ + (if e.enabled { "yes"@ } else { "no"@ }),
    ] + match e.version {
        Some(v) => seq!["Version: "@ + v],
        None => Seq::empty(),
    } + match e.tags {
        Some(t) => if t.len() > 0 { seq!["Tags: "@ + crate::runner::join(t, ", "@)] } else { Seq::empty() },
        None => Seq::empty(),
    }
}

fn push_text(out: &mut Vec<String>, a: &str, b: &str)
    ensures
        strings_view(final(out)@) == strings_view(old(out)@).push(a@ + b@),
{
    let mut s = String::from_str(a);
    s.append(b);
    let ghost prev = out@;
    out.push(s);
    proof {
        prev.lemma_push_map_commute(|x: String| x@, s);
    }
}

fn push_owned(out: &mut Vec<String>, s: String)
    ensures
        strings_view(final(out)@) == strings_view(old(out)@).push(s@),
{
    let ghost prev = out@;
    out.push(s);
    proof {
        prev.lemma_push_map_commute(|x: String| x@, s);
    }
}

/// The details of a plugin, one line each.
pub fn plugin_detail_text(e: &TuiPluginEntry) -> (r: String)
    ensures
        r@ == crate::runner::join(detail_lines(e@), "\n"@),
{
    let mut lines: Vec<String> = Vec::new();
    push_text(&mut lines, "Name: ", e.name.as_str());
    push_text(&mut lines, "Description: ", e.description.as_str());
    push_text(&mut lines, "Kind: ", e.kind.as_str());
    push_text(&mut lines, "Source: ", e.source.as_str());
    push_text(&mut lines, "Enabled: ", if e.enabled { "yes" } else { "no" });
    let ghost base = strings_view(lines@);
    match &e.version {
        Some(v) => push_text(&mut lines, "Version: ", v.as_str()),
        None => {},
    }
    let ghost with_version = strings_view(lines@);
    assert(with_version =~= base + match e@.version {
        Some(v) => seq!["Version: "@ + v],
        None => Seq::<Seq<char>>::empty(),
    });
    match &e.tags {
        Some(t) => {
            if t.len() > 0 {
                let joined = crate::runner::join_strings(t, ", ");
                push_text(&mut lines, "Tags: ", joined.as_str());
            }
        },
        None => {},
    }
    assert(strings_view(lines@) =~= detail_lines(e@));
    crate::runner::join_strings(&lines, "\n")
}

/// A local search hit: `- name [kind:source]` and the description on the
/// next line.
pub open spec fn local_hit(e: ListingView) -> Seq<char> {
    "- "@ + e.name + " ["@ + e.kind + ":"@ + e.source + "]\n  "@ + e.description
}

/// A plugin found in the remote hub: its name, description, author and
/// version.
#[derive(Debug)]
pub struct RemotePlugin {
    pub name: String,
    pub description: String,
    pub author: String,
    pub version: String,
}

pub open spec fn remote_hit(r: RemotePlugin) -> Seq<char> {
    "- "@ + r.name@ + " [remote:skillhub]\n  "@ + r.description@ + "\n  "@ + r.author@ + " / v"@ + r.version@
}

/// The search results: the local hits, then the remote ones, under a
/// title; none when nothing matched.
pub open spec fn search_result_lines(local: Seq<ListingView>, remote: Seq<RemotePlugin>) -> Option<Seq<Seq<char>>> {
    if local.len() == 0 && remote.len() == 0 {
        None
    } else {
        Some(seq!["插件搜索结果:"@] + local.map_values(|e: ListingView| local_hit(e))
            + remote.map_values(|r: RemotePlugin| remote_hit(r)))
    }
}

/// Executable `search_result_lines`, joined into one message.
pub fn search_results_text(local: &Vec<TuiPluginEntry>, remote: &Vec<RemotePlugin>) -> (r: Option<String>)
    ensures
        match search_result_lines(listings_view(local@), remote@) {
            Some(l) => r is Some && r->0@ == crate::runner::join(l, "\n"@),
            None => r is None,
        },
{
    if local.len() == 0 && remote.len() == 0 {
        return None;
    }
    let ghost lv = listings_view(local@);
    let mut lines: Vec<String> = Vec::new();
    push_owned(&mut lines, String::from_str("插件搜索结果:"));
    let ghost head = strings_view(lines@);
    let mut i: usize = 0;
    while i < local.len()
        invariant
            i <= local@.len(),
            lv == listings_view(local@),
            strings_view(lines@) == head + lv.take(i as int).map_values(|e: ListingView| local_hit(e)),
        decreases local@.len() - i,
    {
        let e = &local[i];
        let mut s = String::from_str("- ");
        s.append(e.name.as_str());
        s.append(" [");
        s.append(e.kind.as_str());
        s.append(":");
        s.append(e.source.as_str());
        s.append("]\n  ");
        s.append(e.description.as_str());
        proof {
            assert(lv[i as int] == e@);
            assert(lv.take(i + 1).map_values(|e: ListingView| local_hit(e))
                =~= lv.take(i as int).map_values(|e: ListingView| local_hit(e)).push(local_hit(e@)));
        }
        push_owned(&mut lines, s);
        i = i + 1;
    }
    assert(lv.take(lv.len() as int) =~= lv);
    let ghost mid = strings_view(lines@);
    let mut j: usize = 0;
    while j < remote.len()
        invariant
            j <= remote@.len(),
            strings_view(lines@) == mid + remote@.take(j as int).map_values(|r: RemotePlugin| remote_hit(r)),
        decreases remote@.len() - j,
    {
        let r = &remote[j];
        let mut s = String::from_str("- ");
        s.append(r.name.as_str());
        s.append(" [remote:skillhub]\n  ");
        s.append(r.description.as_str());
        s.append("\n  ");
        s.append(r.author.as_str());
        s.append(" / v");
        s.append(r.version.as_str());
        proof {
            assert(remote@.take(j + 1).map_values(|r: RemotePlugin| remote_hit(r))
                =~= remote@.take(j as int).map_values(|r: RemotePlugin| remote_hit(r)).push(remote_hit(remote@[j as int])));
        }
        push_owned(&mut lines, s);
        j = j + 1;
    }
    assert(remote@.take(remote@.len() as int) =~= remote@);
    assert(strings_view(lines@) =~= search_result_lines(lv, remote@)->0);
    Some(crate::runner::join_strings(&lines, "\n"))
}

/// The search looks at every text of a plugin: a plugin matches a query
/// whenever its lowercased name, description, kind, source or one of its
/// tags contains the lowercased query; and it matches only then.
pub proof fn law_search_covers_every_field(e: ListingView, query: Seq<char>)
    ensures
        contains(unicode_lowercase(e.name), unicode_lowercase(query)) ==> matches_query(e, query),
        contains(unicode_lowercase(e.description), unicode_lowercase(query)) ==> matches_query(e, query),
        contains(unicode_lowercase(e.kind), unicode_lowercase(query)) ==> matches_query(e, query),
        contains(unicode_lowercase(e.source), unicode_lowercase(query)) ==> matches_query(e, query),
        forall|i: int|
            e.tags is Some && 0 <= i < e.tags->0.len() && contains(
                unicode_lowercase(#[trigger] e.tags->0[i]),
                unicode_lowercase(query),
            ) ==> matches_query(e, query),
        matches_query(e, query) ==> {
            ||| contains(unicode_lowercase(e.name), unicode_lowercase(query))
            ||| contains(unicode_lowercase(e.description), unicode_lowercase(query))
            ||| contains(unicode_lowercase(e.kind), unicode_lowercase(query))
            ||| contains(unicode_lowercase(e.source), unicode_lowercase(query))
            ||| exists|i: int|
                e.tags is Some && 0 <= i < e.tags->0.len() && contains(
                    unicode_lowercase(#[trigger] e.tags->0[i]),
                    unicode_lowercase(query),
                )
        },
{
    assert forall|i: int|
        e.tags is Some && 0 <= i < e.tags->0.len() && contains(
            unicode_lowercase(#[trigger] e.tags->0[i]),
            unicode_lowercase(query),
        ) implies matches_query(e, query) by {
        assert(mentions(e.tags->0[i], unicode_lowercase(query)));
    }
}

} // verus!
