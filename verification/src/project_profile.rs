//! Model profiles of a project, kept in `<workdir>/.sacode/profile.json`.
//!
//! A profile names a model for each of three roles (planner, coder and the
//! role that checks their work); the configuration holds the profiles by name (in name order, each name once)
//! and which one is current.

use vstd::prelude::*;
use crate::text::{trim, trim_str};
use crate::name_map::keys_sorted;
use crate::order::{seq_compare, compare_str, lemma_compare_trans};

verus! {

#[derive(Debug)]
pub struct ProfileDefinition {
    pub planner: String,
    pub coder: String,
    pub reviewer: String,
}

#[derive(Debug)]
pub struct ProjectProfileConfig {
    pub current: String,
    /// The profiles by name, in name order.
    pub profiles: Vec<(String, ProfileDefinition)>,
}

/// Where the project's profiles live.
#[derive(Debug)]
pub struct ProjectProfileStore {
    path: String,
}

/// Why a profile change was refused.
#[derive(Debug)]
pub enum ProfileError {
    NotFound(String),
}

impl ProfileError {
    /// The message the command line shows for this error.
    pub fn message(&self) -> (r: String)
        ensures
            r@ == match self {
                ProfileError::NotFound(name) => "profile not found: "@ + name@,
            },
    {
        match self {
            ProfileError::NotFound(name) => {
                let mut s = String::from_str("profile not found: ");
                s.append(name.as_str());
                s
            },
        }
    }
}

pub ghost struct ProfileView {
    pub planner: Seq<char>,
    pub coder: Seq<char>,
    pub reviewer: Seq<char>,
}

pub ghost struct ProfileConfigView {
    pub current: Seq<char>,
    pub profiles: Seq<(Seq<char>, ProfileView)>,
}

impl View for ProfileDefinition {
    type V = ProfileView;

    open spec fn view(&self) -> ProfileView {
        ProfileView { planner: self.planner@, coder: self.coder@, reviewer: self.reviewer@ }
    }
}

/// The views of named profiles.
pub open spec fn profiles_view(v: Seq<(String, ProfileDefinition)>) -> Seq<(Seq<char>, ProfileView)> {
    v.map_values(|e: (String, ProfileDefinition)| (e.0@, e.1@))
}

impl View for ProjectProfileConfig {
    type V = ProfileConfigView;

    open spec fn view(&self) -> ProfileConfigView {
        ProfileConfigView { current: self.current@, profiles: profiles_view(self.profiles@) }
    }
}

impl ProjectProfileConfig {
    /// The profiles are in name order, each name once (as a map keyed by
    /// name keeps them).
    pub open spec fn well_formed(&self) -> bool {
        keys_sorted(self@.profiles)
    }

    /// Whether the profiles are in name order, each name once.
    pub fn names_in_order(&self) -> (r: bool)
        ensures
            r == self.well_formed(),
    {
        let ghost s = self@.profiles;
        let n = self.profiles.len();
        if n == 0 {
            return true;
        }
        let mut i: usize = 1;
        while i < n
            invariant
                1 <= i <= n,
                n == s.len(),
                n == self.profiles@.len(),
                s == self@.profiles,
                forall|a: int, b: int| 0 <= a < b < i ==> seq_compare(s[a].0, s[b].0) < 0,
            decreases n - i,
        {
            let c = compare_str(self.profiles[i - 1].0.as_str(), self.profiles[i].0.as_str());
            assert(s[i - 1].0 == self.profiles@[i - 1].0@);
            assert(s[i as int].0 == self.profiles@[i as int].0@);
            if c >= 0 {
                return false;
            }
            proof {
                assert forall|a: int, b: int| 0 <= a < b < i + 1 implies seq_compare(s[a].0, s[b].0) < 0 by {
                    if b == i && a < i - 1 {
                        lemma_compare_trans(s[a].0, s[i - 1].0, s[i as int].0);
                    }
                }
            }
            i = i + 1;
        }
        true
    }
}

/// There is a profile with this name.
pub open spec fn has_profile(s: Seq<(Seq<char>, ProfileView)>, name: Seq<char>) -> bool {
    exists|i: int| 0 <= i < s.len() && s[i].0 == name
}

pub open spec fn profile_of(planner: Seq<char>, coder: Seq<char>, reviewer: Seq<char>) -> ProfileView {
    ProfileView { planner, coder, reviewer }
}

/// The built-in profiles: `default`, `economy` and `local`, with `default`
/// current.
pub open spec fn default_profiles() -> ProfileConfigView {
    ProfileConfigView {
        current: "default"@,
        profiles: seq![
            ("default"@, profile_of("gpt-5.4"@, "deepseek-v4-flash"@, "deepseek-v4-flash"@)),
            ("economy"@, profile_of("deepseek-v4-flash"@, "deepseek-v4-flash"@, "deepseek-v4-flash"@)),
            ("local"@, profile_of("ollama/glm-4.7-flash"@, "ollama/glm-4.7-flash"@, "ollama/glm-4.7-flash"@)),
        ],
    }
}

/// The canonical form of a configuration: with no profiles, the built-in
/// ones; otherwise the current name trimmed, or the first profile's name
/// when it is empty or names no profile.
pub open spec fn normalized_profiles(v: ProfileConfigView) -> ProfileConfigView {
    if v.profiles.len() == 0 {
        default_profiles()
    } else if trim(v.current).len() == 0 || !has_profile(v.profiles, trim(v.current)) {
        ProfileConfigView { current: v.profiles[0].0, ..v }
    } else {
        ProfileConfigView { current: trim(v.current), ..v }
    }
}

fn definition(planner: &str, coder: &str, reviewer: &str) -> (r: ProfileDefinition)
    ensures
        r@ == profile_of(planner@, coder@, reviewer@),
{
    ProfileDefinition {
        planner: String::from_str(planner),
        coder: String::from_str(coder),
        reviewer: String::from_str(reviewer),
    }
}

/// The built-in profile configuration.
pub fn default_profile_config() -> (r: ProjectProfileConfig)
    ensures
        r@ == default_profiles(),
        r.well_formed(),
{
    let mut profiles: Vec<(String, ProfileDefinition)> = Vec::new();
    profiles.push(
        (String::from_str("default"), definition("gpt-5.4", "deepseek-v4-flash", "deepseek-v4-flash")),
    );
    profiles.push(
        (
            String::from_str("economy"),
            definition("deepseek-v4-flash", "deepseek-v4-flash", "deepseek-v4-flash"),
        ),
    );
    profiles.push(
        (
            String::from_str("local"),
            definition("ollama/glm-4.7-flash", "ollama/glm-4.7-flash", "ollama/glm-4.7-flash"),
        ),
    );
    let r = ProjectProfileConfig { current: String::from_str("default"), profiles };
    assert(r@.profiles =~= default_profiles().profiles);
    proof {
        lemma_default_profiles_sorted();
    }
    r
}

proof fn lemma_default_profiles_sorted()
    ensures
        keys_sorted(default_profiles().profiles),
{
    reveal_strlit("default");
    reveal_strlit("economy");
    reveal_strlit("local");
    let p = default_profiles().profiles;
    assert(seq_compare("default"@, "economy"@) < 0);
    assert(seq_compare("economy"@, "local"@) < 0);
    lemma_compare_trans("default"@, "economy"@, "local"@);
    assert forall|i: int, j: int| 0 <= i < j < p.len() implies seq_compare(p[i].0, p[j].0) < 0 by {
        if i == 0 && j == 2 {
            assert(p[0].0 == "default"@ && p[2].0 == "local"@);
        }
    }
}

/// Whether a profile with this name exists.
fn find_profile(profiles: &Vec<(String, ProfileDefinition)>, name: &String) -> (r: bool)
    ensures
        r == has_profile(profiles_view(profiles@), name@),
{
    let ghost all = profiles_view(profiles@);
    let mut i: usize = 0;
    while i < profiles.len()
        invariant
            i <= profiles@.len(),
            all == profiles_view(profiles@),
            forall|j: int| 0 <= j < i ==> all[j].0 != name@,
        decreases profiles@.len() - i,
    {
        assert(all[i as int].0 == profiles@[i as int].0@);
        if profiles[i].0.eq(name) {
            return true;
        }
        i = i + 1;
    }
    false
}

/// Puts a configuration into its canonical form.
pub fn normalize_profile_config(config: &mut ProjectProfileConfig)
    requires
        old(config).well_formed(),
    ensures
        final(config)@ == normalized_profiles(old(config)@),
        final(config).well_formed(),
{
    if config.profiles.len() == 0 {
        *config = default_profile_config();
        return;
    }
    let current = trim_str(config.current.as_str());
    if current.as_str().unicode_len() == 0 || !find_profile(&config.profiles, &current) {
        config.current = config.profiles[0].0.clone();
        assert(config@.current == old(config)@.profiles[0].0);
    } else {
        config.current = current;
    }
    assert(config@.profiles == old(config)@.profiles);
}

impl ProjectProfileStore {
    pub closed spec fn path_view(&self) -> Seq<char> {
        self.path@
    }

    /// The store for a working directory: `<workdir>/.sacode/profile.json`.
    pub fn new(workdir: &str) -> (r: Self)
        ensures
            r.path_view() == crate::paths::path_join(workdir@, ".sacode/profile.json"@),
    {
        ProjectProfileStore { path: crate::paths::join_path(workdir, ".sacode/profile.json") }
    }

    pub fn path(&self) -> (r: &str)
        ensures
            r@ == self.path_view(),
    {
        self.path.as_str()
    }

    /// The configuration as loading it gives it: the built-in one when the
    /// file is missing, otherwise the stored one in canonical form.  This is
    /// also what gets written back.
    pub fn ensure_exists(&self, stored: Option<ProjectProfileConfig>) -> (r: ProjectProfileConfig)
        requires
            stored matches Some(c) ==> c.well_formed(),
        ensures
            r.well_formed(),
            r@ == match stored {
                None => default_profiles(),
                Some(c) => normalized_profiles(c@),
            },
    {
        match stored {
            None => default_profile_config(),
            Some(c) => {
                let mut c = c;
                normalize_profile_config(&mut c);
                c
            },
        }
    }

    /// Makes `name` the current profile; refused when no profile has it.
    pub fn set_current(&self, config: &mut ProjectProfileConfig, name: &str) -> (r: Result<(), ProfileError>)
        requires
            old(config).well_formed(),
        ensures
            final(config).well_formed(),
            !has_profile(old(config)@.profiles, name@) ==> (r matches Err(ProfileError::NotFound(n))
                && n@ == name@ && final(config)@ == old(config)@),
            has_profile(old(config)@.profiles, name@) ==> (r is Ok && final(config)@ == ProfileConfigView {
                current: name@,
                ..old(config)@
            }),
    {
        let target = String::from_str(name);
        if !find_profile(&config.profiles, &target) {
            return Err(ProfileError::NotFound(target));
        }
        config.current = target;
        Ok(())
    }
}

// ---------------------------------------------------------------------
// Laws
// ---------------------------------------------------------------------

/// After normalisation the current name is the name of a profile.
pub proof fn law_normalized_current_exists(v: ProfileConfigView)
    ensures
        has_profile(normalized_profiles(v).profiles, normalized_profiles(v).current),
{
    let n = normalized_profiles(v);
    if v.profiles.len() == 0 {
        assert(n.profiles[0].0 == "default"@);
    } else if trim(v.current).len() == 0 || !has_profile(v.profiles, trim(v.current)) {
        assert(n.profiles[0].0 == n.current);
    }
}

proof fn lemma_trim_start_id(s: Seq<char>)
    requires
        s.len() == 0 || !crate::text::is_ws(s[0]),
    ensures
        crate::text::trim_start(s) == s,
{
}

proof fn lemma_trim_end_id(s: Seq<char>)
    requires
        s.len() == 0 || !crate::text::is_ws(s.last()),
    ensures
        crate::text::trim_end(s) == s,
{
}

/// Trimming twice is trimming once.
pub proof fn lemma_trim_idempotent(s: Seq<char>)
    ensures
        trim(trim(s)) == trim(s),
{
    lemma_trim_start_shape(s);
    let a = crate::text::trim_start(s);
    lemma_trim_end_shape(a);
    let b = crate::text::trim_end(a);
    lemma_trim_end_prefix(a);
    if b.len() > 0 {
        assert(b[0] == a[0]);
    }
    lemma_trim_start_id(b);
    lemma_trim_end_id(b);
}

proof fn lemma_trim_start_shape(s: Seq<char>)
    ensures
        crate::text::trim_start(s).len() == 0 || !crate::text::is_ws(crate::text::trim_start(s)[0]),
    decreases s.len(),
{
    if s.len() > 0 && crate::text::is_ws(s[0]) {
        lemma_trim_start_shape(s.drop_first());
    }
}

proof fn lemma_trim_end_shape(s: Seq<char>)
    ensures
        crate::text::trim_end(s).len() == 0 || !crate::text::is_ws(crate::text::trim_end(s).last()),
    decreases s.len(),
{
    if s.len() > 0 && crate::text::is_ws(s.last()) {
        lemma_trim_end_shape(s.drop_last());
    }
}

proof fn lemma_trim_end_prefix(s: Seq<char>)
    ensures
        crate::text::trim_end(s).len() <= s.len(),
        crate::text::trim_end(s) == s.take(crate::text::trim_end(s).len() as int),
    decreases s.len(),
{
    if s.len() > 0 && crate::text::is_ws(s.last()) {
        lemma_trim_end_prefix(s.drop_last());
        assert(s.drop_last().take(crate::text::trim_end(s).len() as int) =~= s.take(
            crate::text::trim_end(s).len() as int,
        ));
    } else {
        assert(s.take(s.len() as int) =~= s);
    }
}

/// Normalising twice gives what normalising once gave, for profile names
/// without surrounding whitespace.  (With a first profile named " x " and
/// another named "x", the second pass would move the current name to "x".)
pub proof fn law_normalize_profiles_idempotent(v: ProfileConfigView)
    requires
        forall|i: int| 0 <= i < v.profiles.len() ==> #[trigger] trim(v.profiles[i].0) == v.profiles[i].0,
    ensures
        normalized_profiles(normalized_profiles(v)) == normalized_profiles(v),
{
    let n = normalized_profiles(v);
    law_normalized_current_exists(v);
    if v.profiles.len() == 0 {
        reveal_strlit("default");
        assert(trim("default"@) == "default"@) by {
            lemma_trim_start_id("default"@);
            lemma_trim_end_id("default"@);
        }
    } else if trim(v.current).len() == 0 || !has_profile(v.profiles, trim(v.current)) {
        assert(trim(v.profiles[0].0) == v.profiles[0].0);
        if n.current.len() == 0 {
            assert(trim(n.current).len() == 0);
        }
    } else {
        lemma_trim_idempotent(v.current);
    }
}

} // verus!
