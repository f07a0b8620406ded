//! Finding the JSON value that ends a model's reply: the whole reply when
//! it is JSON, else the last `{` or `[` from which the rest of the reply is
//! JSON.

use vstd::prelude::*;
use crate::text::{from_chars, slice_chars, to_chars};

verus! {

/// Whether `serde_json` reads the text as one JSON value.
pub uninterp spec fn json_text(s: Seq<char>) -> bool;

/// `serde_json::from_str::<serde_json::Value>(s).is_ok()`: whether the text
/// is one JSON value, with nothing but whitespace around it.  The JSON
/// grammar is named here, not written out; the answer depends on the text
/// alone.
#[verifier::external_body]
fn parses_as_json(s: &str) -> (r: bool)
    ensures
        r == json_text(s@),
{
    serde_json::from_str::<serde_json::Value>(s).is_ok()
}

/// A character that can open a JSON object or array.
pub open spec fn opens_json(c: char) -> bool {
    c == '{' || c == '['
}

/// The rest of the text from `i` is JSON and starts at an opening bracket.
pub open spec fn json_from(raw: Seq<char>, i: int) -> bool {
    0 <= i < raw.len() && opens_json(raw[i]) && json_text(raw.skip(i))
}

/// The text of the reply's last JSON value: the whole reply when it is
/// JSON; else the rest of the reply from the last opening bracket from
/// which it is JSON; `None` when there is no such place.
pub fn extract_last_json_value(raw: &str) -> (r: Option<String>)
    ensures
        json_text(raw@) ==> (r is Some && r->0@ == raw@),
        !json_text(raw@) ==> match r {
            Some(t) => exists|i: int| {
                &&& json_from(raw@, i)
                &&& t@ == raw@.skip(i)
                &&& forall|j: int| i < j < raw@.len() ==> !json_from(raw@, j)
            },
            None => forall|j: int| 0 <= j < raw@.len() ==> !json_from(raw@, j),
        },
{
    if parses_as_json(raw) {
        return Some(raw.to_string());
    }
    let chars = to_chars(raw);
    let n = chars.len();
    let mut k: usize = n;
    while k > 0
        invariant
            k <= n,
            n == chars@.len(),
            chars@ == raw@,
            !json_text(raw@),
            forall|j: int| k <= j < n ==> !json_from(raw@, j),
        decreases k,
    {
        let i = k - 1;
        if chars[i] == '{' || chars[i] == '[' {
            let rest = slice_chars(chars.as_slice(), i, n);
            let text = from_chars(rest.as_slice());
            assert(text@ == raw@.skip(i as int));
            if parses_as_json(text.as_str()) {
                assert(json_from(raw@, i as int));
                return Some(text);
            }
        }
        k = i;
    }
    None
}

} // verus!
