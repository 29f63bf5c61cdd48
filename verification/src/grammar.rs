//! The grammar, stated as specification functions.
//!
//! Every function here maps the input character sequence and a cursor
//! position to a [`Step`]: the decoded result (or `None` for failure) and the
//! position the cursor rests at afterwards. The executable decoder in
//! [`crate::parser`] is proved to return exactly these values, so this module
//! is the single place that says what the library accepts and produces.
//!
//! The grammar is deliberately narrow and keeps its documented quirks:
//!
//! * a digit `0` or `9` after the first character ends a number, so `"90"`
//!   decodes as `9` and the leftover `0` then fails the whole parse;
//! * an object member must start with a quoted key, so `"{}"` never reaches
//!   the empty-object sentinel and fails outright, although [`MapObject`]
//!   can represent an empty object;
//! * strings are copied verbatim, with no escape decoding;
//! * after a failed decode the cursor rests wherever the attempt stopped;
//!   nothing rewinds it.
//!
//! [`MapObject`]: crate::value::MapObject

use vstd::prelude::*;

use crate::value::SpecValue;

verus! {

/// One decoding step: what was found, and where the cursor rests afterwards.
pub struct Step<T> {
    pub found: Option<T>,
    pub at: int,
}

/// Whether a character is whitespace, by the host's classification.
/// The executable decoder relies on `char::is_whitespace` for this
/// (see [`crate::parser`]), so the classification is named rather than
/// spelled out.
pub uninterp spec fn white(c: char) -> bool;

/// The cursor never runs past the end of the input: advancing saturates.
pub open spec fn clip(s: Seq<char>, p: int) -> int {
    if p > s.len() {
        s.len() as int
    } else {
        p
    }
}

/// The character at `p` exists and is `c`.
pub open spec fn at_is(s: Seq<char>, p: int, c: char) -> bool {
    0 <= p && p < s.len() && s[p] == c
}

/// A decimal digit, `'0'` through `'9'`.
pub open spec fn is_digit(c: char) -> bool {
    48 <= (c as u32) && (c as u32) <= 57
}

/// A digit that continues a number: strictly between `'0'` and `'9'`, so
/// only `'1'` through `'8'`. A later `0` or `9` therefore ends the number.
pub open spec fn is_run_digit(c: char) -> bool {
    48 < (c as u32) && (c as u32) < 57
}

/// The numeric value of a decimal digit.
pub open spec fn digit_val(c: char) -> int {
    (c as u32) - 48
}

/// The first position at or after `pos` that does not hold whitespace.
pub open spec fn spec_skip_white(s: Seq<char>, pos: int) -> int
    decreases s.len() - pos,
{
    if 0 <= pos && pos < s.len() && white(s[pos]) {
        spec_skip_white(s, pos + 1)
    } else {
        pos
    }
}

/// The first position at or after `pos` that holds neither whitespace nor a
/// comma; used between array elements and between object members.
pub open spec fn spec_skip_list_sep(s: Seq<char>, pos: int) -> int
    decreases s.len() - pos,
{
    if 0 <= pos && pos < s.len() && (white(s[pos]) || s[pos] == ',') {
        spec_skip_list_sep(s, pos + 1)
    } else {
        pos
    }
}

/// The first position at or after `pos` that holds neither whitespace nor a
/// colon; used between an object member's key and its value.
pub open spec fn spec_skip_pair_sep(s: Seq<char>, pos: int) -> int
    decreases s.len() - pos,
{
    if 0 <= pos && pos < s.len() && (white(s[pos]) || s[pos] == ':') {
        spec_skip_pair_sep(s, pos + 1)
    } else {
        pos
    }
}

/// The end of the run of continuation digits starting at `pos`.
pub open spec fn spec_digit_run_end(s: Seq<char>, pos: int) -> int
    decreases s.len() - pos,
{
    if 0 <= pos && pos < s.len() && is_run_digit(s[pos]) {
        spec_digit_run_end(s, pos + 1)
    } else {
        pos
    }
}

/// The first position at or after `pos` holding a double quote.
pub open spec fn spec_find_quote(s: Seq<char>, pos: int) -> int
    decreases s.len() - pos,
{
    if 0 <= pos && pos < s.len() && s[pos] != '"' {
        spec_find_quote(s, pos + 1)
    } else {
        pos
    }
}

/// The literal `null`. On a mismatch the cursor rests one past the first
/// offending position; on success it rests one past the final `l`.
pub open spec fn spec_parse_null(s: Seq<char>, pos: int) -> Step<SpecValue> {
    if !at_is(s, pos, 'n') {
        Step { found: None, at: clip(s, pos + 1) }
    } else if !at_is(s, pos + 1, 'u') {
        Step { found: None, at: clip(s, pos + 2) }
    } else if !at_is(s, pos + 2, 'l') {
        Step { found: None, at: clip(s, pos + 3) }
    } else if !at_is(s, pos + 3, 'l') {
        Step { found: None, at: clip(s, pos + 4) }
    } else {
        Step { found: Some(SpecValue::Null), at: pos + 4 }
    }
}

/// The literal `true`, as for `null`.
pub open spec fn spec_parse_true(s: Seq<char>, pos: int) -> Step<SpecValue> {
    if !at_is(s, pos, 't') {
        Step { found: None, at: clip(s, pos + 1) }
    } else if !at_is(s, pos + 1, 'r') {
        Step { found: None, at: clip(s, pos + 2) }
    } else if !at_is(s, pos + 2, 'u') {
        Step { found: None, at: clip(s, pos + 3) }
    } else if !at_is(s, pos + 3, 'e') {
        Step { found: None, at: clip(s, pos + 4) }
    } else {
        Step { found: Some(SpecValue::Boolean(true)), at: pos + 4 }
    }
}

/// The literal `false`, as for `null`.
pub open spec fn spec_parse_false(s: Seq<char>, pos: int) -> Step<SpecValue> {
    if !at_is(s, pos, 'f') {
        Step { found: None, at: clip(s, pos + 1) }
    } else if !at_is(s, pos + 1, 'a') {
        Step { found: None, at: clip(s, pos + 2) }
    } else if !at_is(s, pos + 2, 'l') {
        Step { found: None, at: clip(s, pos + 3) }
    } else if !at_is(s, pos + 3, 's') {
        Step { found: None, at: clip(s, pos + 4) }
    } else if !at_is(s, pos + 4, 'e') {
        Step { found: None, at: clip(s, pos + 5) }
    } else {
        Step { found: Some(SpecValue::Boolean(false)), at: pos + 5 }
    }
}

/// The value of a run of decimal digits, most significant first.
pub open spec fn spec_digits_value(ds: Seq<char>) -> int
    decreases ds.len(),
{
    if ds.len() == 0 {
        0
    } else {
        spec_digits_value(ds.drop_last()) * 10 + digit_val(ds.last())
    }
}

/// Every character of the sequence is a decimal digit.
pub open spec fn spec_all_digits(ds: Seq<char>) -> bool {
    forall|i: int| 0 <= i < ds.len() ==> is_digit(#[trigger] ds[i])
}

/// The signed 64-bit reading of a composed number token: an optional leading
/// minus, then at least one digit, with the value within the 64-bit signed
/// range. A lone minus, a non-digit, or an out-of-range value fails.
pub open spec fn spec_int_token(tok: Seq<char>) -> Option<int> {
    let neg = tok.len() > 0 && tok[0] == '-';
    let digits = if neg {
        tok.drop_first()
    } else {
        tok
    };
    if digits.len() == 0 || !spec_all_digits(digits) {
        None
    } else {
        let v = if neg {
            -spec_digits_value(digits)
        } else {
            spec_digits_value(digits)
        };
        if -0x8000_0000_0000_0000 <= v && v <= 0x7fff_ffff_ffff_ffff {
            Some(v)
        } else {
            None
        }
    }
}

/// A number: the character under the cursor, then the run of continuation
/// digits, read as a signed 64-bit integer. The cursor rests on the first
/// character after the run whether or not the token reads as a number.
pub open spec fn spec_parse_number(s: Seq<char>, pos: int) -> Step<SpecValue> {
    if 0 <= pos && pos < s.len() {
        let end = spec_digit_run_end(s, pos + 1);
        match spec_int_token(s.subrange(pos, end)) {
            Some(v) => Step { found: Some(SpecValue::Number(v)), at: end },
            None => Step { found: None, at: end },
        }
    } else {
        Step { found: None, at: clip(s, pos) }
    }
}

/// The text of a string: the cursor stands on the opening quote, and the
/// text runs verbatim to the next quote. Failure, with the cursor at the end
/// of the input, when no closing quote follows.
pub open spec fn spec_parse_string_text(s: Seq<char>, pos: int) -> Step<Seq<char>> {
    let start = clip(s, pos + 1);
    let close = spec_find_quote(s, start);
    if 0 <= close && close < s.len() {
        Step { found: Some(s.subrange(start, close)), at: close + 1 }
    } else {
        Step { found: None, at: s.len() as int }
    }
}

/// A string value.
pub open spec fn spec_parse_string(s: Seq<char>, pos: int) -> Step<SpecValue> {
    let st = spec_parse_string_text(s, pos);
    Step {
        found: match st.found {
            Some(t) => Some(SpecValue::String(t)),
            None => None,
        },
        at: st.at,
    }
}

/// Skipping whitespace never moves the cursor backwards nor past the end.
pub proof fn lemma_skip_white_bounds(s: Seq<char>, pos: int)
    requires
        0 <= pos <= s.len(),
    ensures
        pos <= spec_skip_white(s, pos) <= s.len(),
    decreases s.len() - pos,
{
    if pos < s.len() && white(s[pos]) {
        lemma_skip_white_bounds(s, pos + 1);
    }
}

/// As [`lemma_skip_white_bounds`], for the element separator run.
pub proof fn lemma_skip_list_sep_bounds(s: Seq<char>, pos: int)
    requires
        0 <= pos <= s.len(),
    ensures
        pos <= spec_skip_list_sep(s, pos) <= s.len(),
    decreases s.len() - pos,
{
    if pos < s.len() && (white(s[pos]) || s[pos] == ',') {
        lemma_skip_list_sep_bounds(s, pos + 1);
    }
}

/// As [`lemma_skip_white_bounds`], for the key/value separator run.
pub proof fn lemma_skip_pair_sep_bounds(s: Seq<char>, pos: int)
    requires
        0 <= pos <= s.len(),
    ensures
        pos <= spec_skip_pair_sep(s, pos) <= s.len(),
    decreases s.len() - pos,
{
    if pos < s.len() && (white(s[pos]) || s[pos] == ':') {
        lemma_skip_pair_sep_bounds(s, pos + 1);
    }
}

/// The run of continuation digits ends at or after its start, within bounds.
pub proof fn lemma_digit_run_end_bounds(s: Seq<char>, pos: int)
    requires
        0 <= pos <= s.len(),
    ensures
        pos <= spec_digit_run_end(s, pos) <= s.len(),
    decreases s.len() - pos,
{
    if pos < s.len() && is_run_digit(s[pos]) {
        lemma_digit_run_end_bounds(s, pos + 1);
    }
}

/// The quote search ends at or after its start, within bounds.
pub proof fn lemma_find_quote_bounds(s: Seq<char>, pos: int)
    requires
        0 <= pos <= s.len(),
    ensures
        pos <= spec_find_quote(s, pos) <= s.len(),
    decreases s.len() - pos,
{
    if pos < s.len() && s[pos] != '"' {
        lemma_find_quote_bounds(s, pos + 1);
    }
}

/// A string decode leaves the cursor between its start and the end of the
/// input, and consumes at least the two quotes when it succeeds.
pub proof fn lemma_string_text_bounds(s: Seq<char>, pos: int)
    requires
        0 <= pos <= s.len(),
    ensures
        pos <= spec_parse_string_text(s, pos).at <= s.len(),
        spec_parse_string_text(s, pos).found is Some ==> spec_parse_string_text(s, pos).at
            >= pos + 2,
{
    let start = clip(s, pos + 1);
    lemma_find_quote_bounds(s, start);
}

/// A decoded value: leading whitespace, one dispatched construct chosen by
/// single-character lookahead, trailing whitespace. Anything else, including
/// an empty rest of input, fails.
pub open spec fn spec_parse_inside(s: Seq<char>, pos: int) -> Step<SpecValue>
    decreases s.len() - pos, 1int,
{
    proof {
        if 0 <= pos && pos <= s.len() {
            lemma_skip_white_bounds(s, pos);
        }
    }
    let p0 = spec_skip_white(s, pos);
    let st = if 0 <= p0 && p0 < s.len() {
        let c = s[p0];
        if c == '{' {
            spec_parse_map(s, p0)
        } else if c == '[' {
            spec_parse_list(s, p0)
        } else if c == '"' {
            spec_parse_string(s, p0)
        } else if c == 't' {
            spec_parse_true(s, p0)
        } else if c == 'f' {
            spec_parse_false(s, p0)
        } else if c == 'n' {
            spec_parse_null(s, p0)
        } else if c == '-' || is_digit(c) {
            spec_parse_number(s, p0)
        } else {
            Step { found: None, at: p0 }
        }
    } else {
        Step { found: None, at: p0 }
    };
    Step { found: st.found, at: spec_skip_white(s, st.at) }
}

/// An array: the opening bracket, then the element chain.
pub open spec fn spec_parse_list(s: Seq<char>, pos: int) -> Step<SpecValue>
    decreases s.len() - pos, 0int,
{
    if 0 <= pos && pos < s.len() {
        let st = spec_parse_list_inside(s, pos + 1);
        Step {
            found: match st.found {
                Some(chain) => Some(SpecValue::List(chain)),
                None => None,
            },
            at: st.at,
        }
    } else {
        Step { found: None, at: clip(s, pos + 1) }
    }
}

/// The element chain of an array, after the opening bracket.
///
/// One value is attempted; failure there is how an empty array shows itself,
/// not an error by itself. After a separator run, a closing bracket ends the
/// chain: one node holding the value if there was one, else the empty
/// sentinel. Otherwise the chain continues, which demands that a value was
/// found; the input ending before a closing bracket fails.
pub open spec fn spec_parse_list_inside(s: Seq<char>, pos: int) -> Step<Seq<Option<SpecValue>>>
    decreases s.len() - pos, 2int,
{
    let v = spec_parse_inside(s, pos);
    let p1 = spec_skip_list_sep(s, v.at);
    if at_is(s, p1, ']') {
        Step { found: Some(seq![v.found]), at: p1 + 1 }
    } else if !(0 <= p1 && p1 < s.len()) {
        Step { found: None, at: clip(s, p1) }
    } else if v.found is None || p1 <= pos {
        // no element and no closing bracket: not an array (a decoded
        // element always consumes input, so `p1 <= pos` never holds here)
        Step { found: None, at: p1 }
    } else {
        let rest = spec_parse_list_inside(s, p1);
        match rest.found {
            Some(tail) => Step { found: Some(seq![v.found] + tail), at: rest.at },
            None => Step { found: None, at: rest.at },
        }
    }
}

/// An object: the opening brace, then the member chain.
pub open spec fn spec_parse_map(s: Seq<char>, pos: int) -> Step<SpecValue>
    decreases s.len() - pos, 0int,
{
    if 0 <= pos && pos < s.len() {
        let st = spec_parse_map_inside(s, pos + 1);
        Step {
            found: match st.found {
                Some(chain) => Some(SpecValue::Object(chain)),
                None => None,
            },
            at: st.at,
        }
    } else {
        Step { found: None, at: clip(s, pos + 1) }
    }
}

/// The member chain of an object, after the opening brace.
///
/// A member unconditionally starts with a quoted key — checked before the
/// empty-object case could ever be seen, so `{}` fails here — then a
/// separator run, the member's value, and another separator run. A closing
/// brace ends the chain with one node; otherwise the chain continues. A
/// missing value, or input ending before the closing brace, fails.
pub open spec fn spec_parse_map_inside(s: Seq<char>, pos: int) -> Step<
    Seq<Option<(Seq<char>, SpecValue)>>,
>
    decreases s.len() - pos, 2int,
{
    proof {
        if 0 <= pos && pos <= s.len() {
            lemma_skip_white_bounds(s, pos);
            let q = spec_skip_white(s, pos);
            if q < s.len() {
                lemma_string_text_bounds(s, q);
                lemma_skip_pair_sep_bounds(s, spec_parse_string_text(s, q).at);
            }
        }
    }
    let p0 = spec_skip_white(s, pos);
    if !at_is(s, p0, '"') {
        Step { found: None, at: p0 }
    } else {
        let k = spec_parse_string_text(s, p0);
        match k.found {
            None => Step { found: None, at: k.at },
            Some(key) => {
                let p1 = spec_skip_pair_sep(s, k.at);
                let v = spec_parse_inside(s, p1);
                let p2 = spec_skip_list_sep(s, v.at);
                if at_is(s, p2, '}') {
                    match v.found {
                        Some(x) => Step { found: Some(seq![Some((key, x))]), at: p2 + 1 },
                        None => Step { found: None, at: p2 + 1 },
                    }
                } else if !(0 <= p2 && p2 < s.len()) {
                    Step { found: None, at: clip(s, p2) }
                } else {
                    match v.found {
                        None => Step { found: None, at: p2 },
                        Some(x) => {
                            if p2 <= pos {
                                // never reached: a decoded member consumes input
                                Step { found: None, at: p2 }
                            } else {
                                let rest = spec_parse_map_inside(s, p2);
                                match rest.found {
                                    Some(tail) => Step {
                                        found: Some(seq![Some((key, x))] + tail),
                                        at: rest.at,
                                    },
                                    None => Step { found: None, at: rest.at },
                                }
                            }
                        },
                    }
                }
            },
        }
    }
}

/// A whole document from `pos`: one dispatched value, after which any
/// character still unconsumed — whitespace is already gone — fails the parse
/// even though a well-formed value was found.
pub open spec fn spec_parse_at(s: Seq<char>, pos: int) -> Step<SpecValue> {
    let st = spec_parse_inside(s, pos);
    Step {
        found: if st.at < s.len() {
            None
        } else {
            st.found
        },
        at: st.at,
    }
}

/// The decode of a whole document from its beginning.
pub open spec fn spec_parse_document(s: Seq<char>) -> Option<SpecValue> {
    spec_parse_at(s, 0).found
}

} // verus!
