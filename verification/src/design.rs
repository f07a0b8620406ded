//! Arguments of the `/design` command.

use vstd::prelude::*;
use crate::text::{starts_with, starts_with_chars, to_chars, chars_eq};
use crate::task_store::strings_view;

verus! {

/// The first position of `flag` among the arguments, if any.
pub open spec fn flag_position(args: Seq<Seq<char>>, flag: Seq<char>) -> Option<int>
    decreases args.len(),
{
    if args.len() == 0 {
        None
    } else {
        match flag_position(args.drop_last(), flag) {
            Some(i) => Some(i),
            None => if args.last() == flag {
                Some(args.len() - 1)
            } else {
                None
            },
        }
    }
}

/// The value that follows the first `flag`, unless it is missing or is
/// itself a flag (starts with `--`).
pub open spec fn flag_value(args: Seq<Seq<char>>, flag: Seq<char>) -> Option<Seq<char>> {
    match flag_position(args, flag) {
        Some(i) => if i + 1 < args.len() && !starts_with(args[i + 1], "--"@) {
            Some(args[i + 1])
        } else {
            None
        },
        None => None,
    }
}

proof fn lemma_flag_position(args: Seq<Seq<char>>, flag: Seq<char>, i: int)
    requires
        0 <= i <= args.len(),
        forall|j: int| 0 <= j < i ==> args[j] != flag,
    ensures
        i < args.len() && args[i] == flag ==> flag_position(args, flag) == Some(i),
        i == args.len() ==> flag_position(args, flag) is None,
    decreases args.len(),
{
    if args.len() > 0 {
        let k = if i < args.len() { i } else { i - 1 };
        lemma_flag_position(args.drop_last(), flag, k);
    }
}

/// Executable `flag_value`.
pub fn extract_flag(args: &[String], flag: &str) -> (r: Option<String>)
    ensures
        crate::task_store::opt_view(r) == flag_value(strings_view(args@), flag@),
{
    let ghost a = strings_view(args@);
    let f = to_chars(flag);
    let mut i: usize = 0;
    while i < args.len()
        invariant
            i <= args@.len(),
            a == strings_view(args@),
            f@ == flag@,
            forall|j: int| 0 <= j < i ==> a[j] != flag@,
        decreases args@.len() - i,
    {
        let x = to_chars(args[i].as_str());
        if chars_eq(&x, &f) {
            proof {
                lemma_flag_position(a, flag@, i as int);
            }
            if i + 1 < args.len() {
                let next = to_chars(args[i + 1].as_str());
                let dashes = to_chars("--");
                if !starts_with_chars(&next, &dashes) {
                    return Some(args[i + 1].clone());
                }
            }
            return None;
        }
        i = i + 1;
    }
    proof {
        lemma_flag_position(a, flag@, i as int);
    }
    None
}


// ---------------------------------------------------------------------
// The `/design` command line
// ---------------------------------------------------------------------

/// The value of a decimal digit character.
pub open spec fn digit_value(c: char) -> int {
    (c as u32) - ('0' as u32)
}

/// The number a string of decimal digits spells.
pub open spec fn digits_value(s: Seq<char>) -> nat
    decreases s.len(),
{
    if s.len() == 0 {
        0
    } else {
        (digits_value(s.drop_last()) * 10 + digit_value(s.last())) as nat
    }
}

pub open spec fn all_digits(s: Seq<char>) -> bool {
    forall|i: int| 0 <= i < s.len() ==> '0' <= #[trigger] s[i] <= '9'
}

/// `s.parse::<usize>()`: an optional `+`, then at least one decimal digit,
/// the value fitting in `usize`.
pub open spec fn parsed_usize(s: Seq<char>) -> Option<usize> {
    let d = if s.len() > 0 && s[0] == '+' { s.drop_first() } else { s };
    if d.len() > 0 && all_digits(d) && digits_value(d) <= usize::MAX {
        Some(digits_value(d) as usize)
    } else {
        None
    }
}

/// Executable `parsed_usize`.
pub fn parse_usize(s: &str) -> (r: Option<usize>)
    ensures
        r == parsed_usize(s@),
{
    let c = to_chars(s);
    let start: usize = if c.len() > 0 && c[0] == '+' { 1 } else { 0 };
    let ghost d = if s@.len() > 0 && s@[0] == '+' { s@.drop_first() } else { s@ };
    assert(c@.skip(start as int) =~= d);
    if start == c.len() {
        return None;
    }
    let mut value: usize = 0;
    let mut i: usize = start;
    assert(d.take(0) =~= Seq::<char>::empty());
    while i < c.len()
        invariant
            start <= i <= c@.len(),
            c@ == s@,
            d == c@.skip(start as int),
            d == (if s@.len() > 0 && s@[0] == '+' { s@.drop_first() } else { s@ }),
            all_digits(d.take(i - start)),
            value == digits_value(d.take(i - start)),
        decreases c@.len() - i,
    {
        let ch = c[i];
        assert(d.take(i - start + 1).drop_last() =~= d.take(i - start));
        assert(d.take(i - start + 1).last() == ch);
        if ch < '0' || ch > '9' {
            assert(!all_digits(d)) by {
                assert(d[i - start] == ch);
            }
            return None;
        }
        let v = (ch as u32 - '0' as u32) as usize;
        assert(digit_value(ch) == v);
        if value > (usize::MAX - v) / 10 {
            proof {
                let m = usize::MAX as int;
                let vv = v as int;
                let x = value as int;
                assert(x * 10 + vv > m) by (nonlinear_arith)
                    requires
                        x > (m - vv) / 10,
                        0 <= vv <= 9,
                        m >= 9,
                ;
                assert(digits_value(d.take(i - start + 1)) == value * 10 + v);
                lemma_digits_grow(d, (i - start + 1) as int);
            }
            return None;
        }
        value = value * 10 + v;
        i = i + 1;
        assert(all_digits(d.take(i - start))) by {
            assert forall|j: int| 0 <= j < i - start implies '0' <= #[trigger] d.take(i - start)[j] <= '9' by {
                if j < i - start - 1 {
                    assert(d.take(i - start)[j] == d.take(i - start - 1)[j]);
                }
            }
        }
    }
    assert(d.take(c@.len() - start) =~= d);
    Some(value)
}

/// Once a prefix of digits spells a number too large for `usize`, so does
/// the whole string (when it is all digits).
proof fn lemma_digits_grow(d: Seq<char>, k: int)
    requires
        0 < k <= d.len(),
        digits_value(d.take(k)) > usize::MAX,
    ensures
        !(all_digits(d) && digits_value(d) <= usize::MAX),
    decreases d.len() - k,
{
    if all_digits(d) {
        if k < d.len() {
            assert(d.take(k + 1).drop_last() =~= d.take(k));
            assert('0' <= d[k] <= '9');
            assert(digits_value(d.take(k + 1)) >= digits_value(d.take(k)) * 10);
            lemma_digits_grow(d, k + 1);
        } else {
            assert(d.take(k) =~= d);
        }
    }
}

/// What a `/design` line asks for.
#[derive(Debug)]
pub enum DesignRequest {
    /// The examples (also for an unknown sub-command).
    List,
    Show(String),
    ShowUsage,
    /// Variants of an example, for a project, this many (1 to 3).
    Variants(String, Option<String>, usize),
    VariantsUsage,
    /// Applying an example, or one of its variants, to a project.
    Apply(String, Option<String>, Option<String>),
    ApplyUsage,
}

pub ghost enum DesignRequestView {
    List,
    Show(Seq<char>),
    ShowUsage,
    Variants(Seq<char>, Option<Seq<char>>, usize),
    VariantsUsage,
    Apply(Seq<char>, Option<Seq<char>>, Option<Seq<char>>),
    ApplyUsage,
}

impl View for DesignRequest {
    type V = DesignRequestView;

    open spec fn view(&self) -> DesignRequestView {
        match self {
            DesignRequest::List => DesignRequestView::List,
            DesignRequest::Show(s) => DesignRequestView::Show(s@),
            DesignRequest::ShowUsage => DesignRequestView::ShowUsage,
            DesignRequest::Variants(id, p, n) => DesignRequestView::Variants(
                id@,
                crate::task_store::opt_view(*p),
                *n,
            ),
            DesignRequest::VariantsUsage => DesignRequestView::VariantsUsage,
            DesignRequest::Apply(id, v, p) => DesignRequestView::Apply(
                id@,
                crate::task_store::opt_view(*v),
                crate::task_store::opt_view(*p),
            ),
            DesignRequest::ApplyUsage => DesignRequestView::ApplyUsage,
        }
    }
}

/// The arguments after the command word.
pub open spec fn args_of(w: Seq<Seq<char>>) -> Seq<Seq<char>> {
    if w.len() > 0 { w.skip(1) } else { w }
}

/// The number of variants asked for: `--count`, read as a number and kept
/// between 1 and 3; 3 when missing or unreadable.
pub open spec fn variant_count(args: Seq<Seq<char>>) -> usize {
    let n: usize = match flag_value(args, "--count"@) {
        Some(v) => match parsed_usize(v) {
            Some(n) => n,
            None => 3,
        },
        None => 3,
    };
    if n < 1 { 1 } else if n > 3 { 3 } else { n }
}

/// The request of a `/design` line, from its arguments.
pub open spec fn design_request_of(args: Seq<Seq<char>>) -> DesignRequestView {
    let first = if args.len() > 0 { args[0] } else { "list"@ };
    if first == "show"@ {
        if args.len() > 1 { DesignRequestView::Show(args[1]) } else { DesignRequestView::ShowUsage }
    } else if first == "variants"@ {
        if args.len() > 1 && args[1].len() > 0 {
            DesignRequestView::Variants(args[1], flag_value(args, "--project"@), variant_count(args))
        } else {
            DesignRequestView::VariantsUsage
        }
    } else if first == "apply"@ {
        if args.len() > 1 {
            let variant = if args.len() > 2 && !starts_with(args[2], "--"@) {
                Some(args[2])
            } else {
                flag_value(args, "--variant"@)
            };
            DesignRequestView::Apply(args[1], variant, flag_value(args, "--project"@))
        } else {
            DesignRequestView::ApplyUsage
        }
    } else {
        DesignRequestView::List
    }
}

fn is_text(a: &str, b: &str) -> (r: bool)
    ensures
        r == (a@ == b@),
{
    chars_eq(to_chars(a).as_slice(), to_chars(b).as_slice())
}

/// Reads a `/design` line.
pub fn parse_design_command(line: &str) -> (r: DesignRequest)
    ensures
        r@ == design_request_of(args_of(crate::words::words(line@))),
{
    let w = crate::words::split_whitespace(line);
    let mut args: Vec<String> = Vec::new();
    let mut i: usize = 1;
    let ghost wv = strings_view(w@);
    let ghost av = args_of(wv);
    assert(strings_view(args@) =~= Seq::<Seq<char>>::empty());
    while i < w.len()
        invariant
            1 <= i,
            i <= w@.len() || w@.len() == 0,
            wv == strings_view(w@),
            av == args_of(wv),
            w@.len() > 0 ==> strings_view(args@) == av.take(i - 1),
            w@.len() == 0 ==> args@.len() == 0,
        decreases w@.len() - i,
    {
        let ghost prev = args@;
        let x = w[i].clone();
        args.push(x);
        proof {
            prev.lemma_push_map_commute(|s: String| s@, x);
            assert(av.take(i as int) =~= av.take(i - 1).push(av[i - 1]));
        }
        i = i + 1;
    }
    proof {
        if w@.len() > 0 {
            assert(av.take(w@.len() - 1) =~= av);
        } else {
            assert(strings_view(args@) =~= av);
        }
    }
    let n = args.len();
    proof {
        if n > 0 {
            assert(av[0] == args@[0]@);
        }
        if n > 1 {
            assert(av[1] == args@[1]@);
        }
        if n > 2 {
            assert(av[2] == args@[2]@);
        }
    }
    let first: &str = if n > 0 { args[0].as_str() } else { "list" };
    if is_text(first, "show") {
        if n > 1 { DesignRequest::Show(args[1].clone()) } else { DesignRequest::ShowUsage }
    } else if is_text(first, "variants") {
        if n > 1 && args[1].as_str().unicode_len() > 0 {
            let project = extract_flag(args.as_slice(), "--project");
            let parsed = match extract_flag(args.as_slice(), "--count") {
                Some(v) => match parse_usize(v.as_str()) {
                    Some(k) => k,
                    None => 3,
                },
                None => 3,
            };
            let count = if parsed < 1 { 1 } else if parsed > 3 { 3 } else { parsed };
            DesignRequest::Variants(args[1].clone(), project, count)
        } else {
            DesignRequest::VariantsUsage
        }
    } else if is_text(first, "apply") {
        if n > 1 {
            let variant = if n > 2 && !starts_with_chars(to_chars(args[2].as_str()).as_slice(), to_chars("--").as_slice()) {
                Some(args[2].clone())
            } else {
                extract_flag(args.as_slice(), "--variant")
            };
            let project = extract_flag(args.as_slice(), "--project");
            DesignRequest::Apply(args[1].clone(), variant, project)
        } else {
            DesignRequest::ApplyUsage
        }
    } else {
        DesignRequest::List
    }
}

} // verus!
