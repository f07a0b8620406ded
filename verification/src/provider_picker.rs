//! Managing providers from the interface: the login steps, the provider
//! picker after a rename or a removal, and the `/provider-rename` and
//! `/provider-remove` lines.

use vstd::prelude::*;
use crate::task_store::strings_view;
use crate::text::{trim, trim_str, to_chars, from_chars, slice_chars};
use crate::words::{words, split_whitespace};
use crate::order::sort_strs;
use crate::service_commands::is_text;

verus! {

// ---------------------------------------------------------------------
// Logging in
// ---------------------------------------------------------------------

/// The first position of `c` in `s`.
pub open spec fn first_index_of(s: Seq<char>, c: char) -> Option<int>
    decreases s.len(),
{
    if s.len() == 0 {
        None
    } else if s[0] == c {
        Some(0)
    } else {
        match first_index_of(s.drop_first(), c) {
            Some(i) => Some(i + 1),
            None => None,
        }
    }
}

/// Why a login step was refused.
#[derive(Debug, Clone, Copy, PartialEq, Eq, Structural)]
pub enum LoginError {
    EmptyName,
    EmptyBaseUrl,
    EmptyApiKey,
}

impl LoginError {
    /// The message shown.
    pub fn message(self) -> (r: &'static str)
        ensures
            r@ == match self {
                LoginError::EmptyName => "Provider 名称不能为空。"@,
                LoginError::EmptyBaseUrl => "Base URL 不能为空。"@,
                LoginError::EmptyApiKey => "API Key 不能为空。"@,
            },
    {
        match self {
            LoginError::EmptyName => "Provider 名称不能为空。",
            LoginError::EmptyBaseUrl => "Base URL 不能为空。",
            LoginError::EmptyApiKey => "API Key 不能为空。",
        }
    }
}

/// The provider name and base URL of the first login step: `name url`
/// (split at the first blank of the trimmed line), or just the URL under
/// the pending name (`default` when there is none).
pub open spec fn login_target(line: Seq<char>, pending: Option<Seq<char>>) -> (Seq<char>, Seq<char>) {
    let raw = trim(line);
    match first_index_of(raw, ' ') {
        Some(i) => (trim(raw.take(i)), trim(raw.skip(i + 1))),
        None => (match pending { Some(p) => p, None => "default"@ }, raw),
    }
}

fn find_char(s: &Vec<char>, c: char) -> (r: Option<usize>)
    ensures
        match r {
            Some(i) => i < s@.len() && first_index_of(s@, c) == Some(i as int),
            None => first_index_of(s@, c) is None,
        },
{
    let mut i: usize = 0;
    assert(s@.skip(0) =~= s@);
    while i < s.len()
        invariant
            i <= s@.len(),
            forall|j: int| 0 <= j < i ==> s@[j] != c,
            first_index_of(s@, c) == match first_index_of(s@.skip(i as int), c) {
                Some(k) => Some(k + i),
                None => None,
            },
        decreases s@.len() - i,
    {
        proof {
            assert(s@.skip(i as int)[0] == s@[i as int]);
            assert(s@.skip(i as int).drop_first() =~= s@.skip(i + 1));
        }
        if s[i] == c {
            return Some(i);
        }
        i = i + 1;
    }
    proof {
        assert(s@.skip(i as int) =~= Seq::<char>::empty());
    }
    None
}

/// Executable `login_target`, refused when the name or the URL is blank.
pub fn login_base_url_step(line: &str, pending: Option<&str>) -> (r: Result<(String, String), LoginError>)
    ensures
        ({
            let (n, u) = login_target(line@, match pending { Some(p) => Some(p@), None => None });
            match r {
                Ok((rn, ru)) => n.len() > 0 && u.len() > 0 && rn@ == n && ru@ == u,
                Err(e) => (n.len() == 0 && e == LoginError::EmptyName) || (n.len() > 0 && u.len() == 0
                    && e == LoginError::EmptyBaseUrl),
            }
        }),
{
    let raw = to_chars(trim_str(line).as_str());
    let (name, url) = match find_char(&raw, ' ') {
        Some(i) => {
            let n = raw.len();
            assert(i < n);
            let a = slice_chars(raw.as_slice(), 0, i);
            let b = slice_chars(raw.as_slice(), i + 1, raw.len());
            assert(a@ =~= raw@.take(i as int));
            assert(b@ =~= raw@.skip(i + 1));
            (trim_str(from_chars(a.as_slice()).as_str()), trim_str(from_chars(b.as_slice()).as_str()))
        },
        None => {
            let n = match pending {
                Some(p) => String::from_str(p),
                None => String::from_str("default"),
            };
            (n, from_chars(raw.as_slice()))
        },
    };
    if name.as_str().unicode_len() == 0 {
        Err(LoginError::EmptyName)
    } else if url.as_str().unicode_len() == 0 {
        Err(LoginError::EmptyBaseUrl)
    } else {
        Ok((name, url))
    }
}

/// The API key of the second login step: the trimmed line, refused when
/// blank.
pub fn login_api_key_step(line: &str) -> (r: Result<String, LoginError>)
    ensures
        match r {
            Ok(k) => k@ == trim(line@) && k@.len() > 0,
            Err(e) => trim(line@).len() == 0 && e == LoginError::EmptyApiKey,
        },
{
    let k = trim_str(line);
    if k.as_str().unicode_len() == 0 { Err(LoginError::EmptyApiKey) } else { Ok(k) }
}

// ---------------------------------------------------------------------
// The provider picker
// ---------------------------------------------------------------------

/// The first position of `x` in `s`.
pub open spec fn position_of(s: Seq<Seq<char>>, x: Seq<char>) -> Option<int>
    decreases s.len(),
{
    if s.len() == 0 {
        None
    } else if s[0] == x {
        Some(0)
    } else {
        match position_of(s.drop_first(), x) {
            Some(i) => Some(i + 1),
            None => None,
        }
    }
}

fn find_name(s: &Vec<String>, x: &str) -> (r: Option<usize>)
    ensures
        match r {
            Some(i) => position_of(strings_view(s@), x@) == Some(i as int),
            None => position_of(strings_view(s@), x@) is None,
        },
{
    let ghost sv = strings_view(s@);
    let mut i: usize = 0;
    assert(sv.skip(0) =~= sv);
    while i < s.len()
        invariant
            i <= s@.len(),
            sv == strings_view(s@),
            position_of(sv, x@) == match position_of(sv.skip(i as int), x@) {
                Some(k) => Some(k + i),
                None => None,
            },
        decreases s@.len() - i,
    {
        proof {
            assert(sv.skip(i as int)[0] == s@[i as int]@);
            assert(sv.skip(i as int).drop_first() =~= sv.skip(i + 1));
        }
        if is_text(s[i].as_str(), x) {
            return Some(i);
        }
        i = i + 1;
    }
    proof {
        assert(sv.skip(i as int) =~= Seq::<Seq<char>>::empty());
    }
    None
}

/// The picker after the highlighted provider was renamed: the new name in
/// its place, the list sorted again, and the highlight on the new name.
pub open spec fn after_rename(options: Seq<Seq<char>>, selected: int, new_name: Seq<char>) -> (Seq<Seq<char>>, int) {
    let replaced = if 0 <= selected < options.len() { options.update(selected, new_name) } else { options };
    let sorted = sort_strs(replaced);
    (sorted, match position_of(sorted, new_name) { Some(i) => i, None => 0 })
}

/// Executable `after_rename`.
pub fn renamed_options(options: &Vec<String>, selected: usize, new_name: &str) -> (r: (Vec<String>, usize))
    ensures
        strings_view(r.0@) == after_rename(strings_view(options@), selected as int, new_name@).0,
        r.1 as int == after_rename(strings_view(options@), selected as int, new_name@).1,
{
    let mut v: Vec<String> = Vec::new();
    let mut i: usize = 0;
    let ghost ov = strings_view(options@);
    let ghost replaced = if selected < ov.len() { ov.update(selected as int, new_name@) } else { ov };
    while i < options.len()
        invariant
            i <= options@.len(),
            ov == strings_view(options@),
            replaced == (if selected < ov.len() { ov.update(selected as int, new_name@) } else { ov }),
            strings_view(v@) == replaced.take(i as int),
        decreases options@.len() - i,
    {
        let x = if i == selected { String::from_str(new_name) } else { options[i].clone() };
        let ghost prev = v@;
        proof {
            assert(ov[i as int] == options@[i as int]@);
        }
        v.push(x);
        proof {
            prev.lemma_push_map_commute(|s: String| s@, x);
            assert(replaced.take(i + 1) =~= replaced.take(i as int).push(x@));
        }
        i = i + 1;
    }
    assert(replaced.take(replaced.len() as int) =~= replaced);
    let sorted = crate::order::sort_strings(&v);
    let idx = match find_name(&sorted, new_name) {
        Some(k) => k,
        None => 0,
    };
    (sorted, idx)
}

/// The picker after a provider was removed: the others in order, the
/// highlight moved back onto the last one when it fell off the end; the
/// picker closes when none is left.
pub open spec fn after_removal(options: Seq<Seq<char>>, selected: int, name: Seq<char>) -> (Seq<Seq<char>>, int, bool) {
    let kept = options.filter(|o: Seq<char>| o != name);
    let sel = if selected >= kept.len() && kept.len() > 0 { kept.len() - 1 } else { selected };
    (kept, sel, kept.len() == 0)
}

/// Executable `after_removal`; the flag says whether the picker closes.
pub fn removed_options(options: &Vec<String>, selected: usize, name: &str) -> (r: (Vec<String>, usize, bool))
    ensures
        strings_view(r.0@) == after_removal(strings_view(options@), selected as int, name@).0,
        r.1 as int == after_removal(strings_view(options@), selected as int, name@).1,
        r.2 == after_removal(strings_view(options@), selected as int, name@).2,
{
    let ghost all = strings_view(options@);
    let mut kept: Vec<String> = Vec::new();
    let mut i: usize = 0;
    assert(all.take(0).filter(|o: Seq<char>| o != name@) =~= Seq::<Seq<char>>::empty());
    while i < options.len()
        invariant
            i <= options@.len(),
            all == strings_view(options@),
            strings_view(kept@) == all.take(i as int).filter(|o: Seq<char>| o != name@),
        decreases options@.len() - i,
    {
        proof {
            assert(all.take(i + 1) =~= all.take(i as int).push(all[i as int]));
            all.take(i as int).lemma_filter_push(all[i as int], |o: Seq<char>| o != name@);
            assert(all[i as int] == options@[i as int]@);
        }
        if !is_text(options[i].as_str(), name) {
            let x = options[i].clone();
            let ghost prev = kept@;
            kept.push(x);
            proof {
                prev.lemma_push_map_commute(|s: String| s@, x);
            }
        }
        i = i + 1;
    }
    assert(all.take(all.len() as int) =~= all);
    let n = kept.len();
    let sel = if selected >= n && n > 0 { n - 1 } else { selected };
    (kept, sel, n == 0)
}

// ---------------------------------------------------------------------
// `/provider-rename` and `/provider-remove`
// ---------------------------------------------------------------------

/// The names of `/provider-rename <old> <new>`, when the line has exactly
/// those two.
pub fn parse_provider_rename(line: &str) -> (r: Option<(String, String)>)
    ensures
        ({
            let w = words(line@);
            if w.len() == 3 { r matches Some((a, b)) && a@ == w[1] && b@ == w[2] } else { r is None }
        }),
{
    let w = split_whitespace(line);
    if w.len() != 3 {
        return None;
    }
    proof {
        assert(strings_view(w@)[1] == w@[1]@);
        assert(strings_view(w@)[2] == w@[2]@);
    }
    Some((w[1].clone(), w[2].clone()))
}

/// The name of `/provider-remove <name>`, when the line has exactly that
/// one.
pub fn parse_provider_remove(line: &str) -> (r: Option<String>)
    ensures
        ({
            let w = words(line@);
            if w.len() == 2 { r matches Some(a) && a@ == w[1] } else { r is None }
        }),
{
    let w = split_whitespace(line);
    if w.len() != 2 {
        return None;
    }
    proof {
        assert(strings_view(w@)[1] == w@[1]@);
    }
    Some(w[1].clone())
}

/// Removing a provider from the picker leaves no entry of that name and
/// keeps the highlight inside the list (unless the list is empty).
pub proof fn law_removal_keeps_the_highlight_inside(options: Seq<Seq<char>>, selected: int, name: Seq<char>)
    requires
        0 <= selected < options.len(),
    ensures
        ({
            let (kept, sel, closed) = after_removal(options, selected, name);
            &&& forall|i: int| 0 <= i < kept.len() ==> #[trigger] kept[i] != name
            &&& (!closed ==> 0 <= sel < kept.len())
        }),
{
    let kept = options.filter(|o: Seq<char>| o != name);
    assert forall|i: int| 0 <= i < kept.len() implies #[trigger] kept[i] != name by {
        options.filter_lemma(|o: Seq<char>| o != name);
    }
    options.filter_lemma(|o: Seq<char>| o != name);
}

} // verus!
