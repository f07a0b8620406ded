//! `str::split_whitespace`: the words of a command line.

use vstd::prelude::*;
use crate::text::{is_ws, is_whitespace, trim_start, to_chars, slice_chars, from_chars};
use crate::commands::leading_word;
use crate::task_store::strings_view;

verus! {

/// Trimming the front leaves a suffix that starts with a non-blank.
pub proof fn lemma_trim_start_len(s: Seq<char>)
    ensures
        trim_start(s).len() <= s.len(),
        trim_start(s).len() > 0 ==> !is_ws(trim_start(s)[0]),
        exists|k: int| 0 <= k <= s.len() && trim_start(s) == s.skip(k),
    decreases s.len(),
{
    if s.len() > 0 && is_ws(s[0]) {
        lemma_trim_start_len(s.drop_first());
        let k = choose|k: int| 0 <= k <= s.drop_first().len() && trim_start(s.drop_first()) == s.drop_first().skip(k);
        assert(s.drop_first().skip(k) =~= s.skip(k + 1));
    } else {
        assert(s.skip(0) =~= s);
    }
}

/// The leading word is a prefix, non-empty when the text starts with a
/// non-blank.
pub proof fn lemma_leading_word_len(s: Seq<char>)
    ensures
        leading_word(s).len() <= s.len(),
        s.len() > 0 && !is_ws(s[0]) ==> leading_word(s).len() >= 1,
        leading_word(s) == s.take(leading_word(s).len() as int),
    decreases s.len(),
{
    if s.len() > 0 && !is_ws(s[0]) {
        lemma_leading_word_len(s.drop_first());
        assert(leading_word(s) =~= s.take(leading_word(s).len() as int));
    } else {
        assert(s.take(0) =~= Seq::<char>::empty());
    }
}

/// The whitespace-separated words of `s`, in order.
pub open spec fn words(s: Seq<char>) -> Seq<Seq<char>>
    decreases s.len(),
{
    let t = trim_start(s);
    if t.len() == 0 {
        Seq::empty()
    } else {
        let w = leading_word(t);
        proof {
            lemma_trim_start_len(s);
            lemma_leading_word_len(t);
        }
        seq![w] + words(t.skip(w.len() as int))
    }
}

proof fn lemma_skip_ws(s: Seq<char>, i: int)
    requires
        0 <= i < s.len(),
        is_ws(s[i]),
    ensures
        trim_start(s.skip(i)) == trim_start(s.skip(i + 1)),
{
    assert(s.skip(i).drop_first() =~= s.skip(i + 1));
}

proof fn lemma_word_step(s: Seq<char>, from: int, i: int)
    requires
        0 <= from <= i < s.len(),
        !is_ws(s[i]),
        leading_word(s.skip(from)) == s.subrange(from, i) + leading_word(s.skip(i)),
    ensures
        leading_word(s.skip(from)) == s.subrange(from, i + 1) + leading_word(s.skip(i + 1)),
{
    assert(s.skip(i).drop_first() =~= s.skip(i + 1));
    assert(s.skip(i)[0] == s[i]);
    assert(s.subrange(from, i + 1) =~= s.subrange(from, i) + seq![s[i]]);
}

/// Executable `words`.
pub fn split_whitespace(s: &str) -> (r: Vec<String>)
    ensures
        strings_view(r@) == words(s@),
{
    let c = to_chars(s);
    let n = c.len();
    let mut out: Vec<String> = Vec::new();
    let mut i: usize = 0;
    assert(c@.skip(0) =~= c@);
    assert(strings_view(out@) + words(c@.skip(0)) =~= words(s@));
    while i < n
        invariant
            n == c@.len(),
            c@ == s@,
            i <= n,
            strings_view(out@) + words(c@.skip(i as int)) == words(s@),
        decreases n - i,
    {
        let ghost before = c@.skip(i as int);
        // Skip the blanks.
        let mut a = i;
        while a < n && is_whitespace(c[a])
            invariant
                n == c@.len(),
                i <= a <= n,
                trim_start(c@.skip(i as int)) == trim_start(c@.skip(a as int)),
            decreases n - a,
        {
            proof {
                lemma_skip_ws(c@, a as int);
            }
            a = a + 1;
        }
        proof {
            if a < n {
                assert(c@.skip(a as int)[0] == c@[a as int]);
            }
            assert(trim_start(c@.skip(a as int)) == c@.skip(a as int));
            assert(words(c@.skip(i as int)) == words(c@.skip(a as int))) by {
                if a == n {
                    assert(c@.skip(a as int) =~= Seq::<char>::empty());
                }
            }
        }
        if a == n {
            proof {
                assert(c@.skip(a as int) =~= Seq::<char>::empty());
                assert(words(c@.skip(a as int)) =~= Seq::<Seq<char>>::empty());
                assert(strings_view(out@) + Seq::<Seq<char>>::empty() =~= strings_view(out@));
            }
            i = n;
        } else {
            // The word.
            let mut b = a;
            assert(c@.subrange(a as int, a as int) =~= Seq::<char>::empty());
            while b < n && !is_whitespace(c[b])
                invariant
                    n == c@.len(),
                    a <= b <= n,
                    leading_word(c@.skip(a as int)) == c@.subrange(a as int, b as int) + leading_word(
                        c@.skip(b as int),
                    ),
                decreases n - b,
            {
                proof {
                    lemma_word_step(c@, a as int, b as int);
                }
                b = b + 1;
            }
            proof {
                if b < n {
                    assert(c@.skip(b as int)[0] == c@[b as int]);
                }
                assert(leading_word(c@.skip(b as int)) =~= Seq::<char>::empty());
                assert(c@.subrange(a as int, b as int) + Seq::<char>::empty() =~= c@.subrange(a as int, b as int));
            }
            let w = slice_chars(c.as_slice(), a, b);
            let word = from_chars(w.as_slice());
            proof {
                let t = c@.skip(a as int);
                assert(leading_word(t) == c@.subrange(a as int, b as int));
                assert(t.skip(b - a) =~= c@.skip(b as int));
                assert(words(t) == seq![leading_word(t)] + words(t.skip(leading_word(t).len() as int)));
            }
            let ghost prev = out@;
            out.push(word);
            proof {
                prev.lemma_push_map_commute(|x: String| x@, word);
                assert(strings_view(out@) + words(c@.skip(b as int)) =~= strings_view(prev) + (seq![word@]
                    + words(c@.skip(b as int))));
            }
            i = b;
        }
    }
    proof {
        assert(c@.skip(n as int) =~= Seq::<char>::empty());
        assert(strings_view(out@) + Seq::<Seq<char>>::empty() =~= strings_view(out@));
    }
    out
}

} // verus!
