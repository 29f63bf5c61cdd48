//! General facts about the grammar.
//!
//! The bounds lemmas say that every decoding step leaves the cursor between
//! where it started and the end of the input, and that a successful decode
//! always consumes at least one character; the executable decoder leans on
//! them for its termination argument. After them stand the laws of the
//! decoder as a whole: decoding is a pure function of the input text, and
//! unconsumed trailing input fails the parse.

use vstd::prelude::*;

use crate::grammar::at_is;
use crate::grammar::is_digit;
use crate::grammar::lemma_digit_run_end_bounds;
use crate::grammar::lemma_skip_list_sep_bounds;
use crate::grammar::lemma_skip_pair_sep_bounds;
use crate::grammar::lemma_skip_white_bounds;
use crate::grammar::lemma_string_text_bounds;
use crate::grammar::spec_digit_run_end;
use crate::grammar::spec_parse_document;
use crate::grammar::spec_parse_false;
use crate::grammar::spec_parse_inside;
use crate::grammar::spec_parse_list;
use crate::grammar::spec_parse_list_inside;
use crate::grammar::spec_parse_map;
use crate::grammar::spec_parse_map_inside;
use crate::grammar::spec_parse_null;
use crate::grammar::spec_parse_string_text;
use crate::grammar::spec_parse_true;
use crate::grammar::spec_skip_list_sep;
use crate::grammar::spec_skip_pair_sep;
use crate::grammar::spec_skip_white;
use crate::grammar::white;

verus! {

/// A dispatched value decode keeps the cursor within the input, and consumes
/// at least one character whenever it finds a value.
pub proof fn lemma_parse_inside_bounds(s: Seq<char>, pos: int)
    requires
        0 <= pos <= s.len(),
    ensures
        pos <= spec_parse_inside(s, pos).at <= s.len(),
        spec_parse_inside(s, pos).found is Some ==> spec_parse_inside(s, pos).at > pos,
    decreases s.len() - pos, 1int,
{
    lemma_skip_white_bounds(s, pos);
    let p0 = spec_skip_white(s, pos);
    if p0 < s.len() {
        let c = s[p0];
        if c == '{' {
            lemma_parse_map_bounds(s, p0);
            lemma_skip_white_bounds(s, spec_parse_map(s, p0).at);
        } else if c == '[' {
            lemma_parse_list_bounds(s, p0);
            lemma_skip_white_bounds(s, spec_parse_list(s, p0).at);
        } else if c == '"' {
            lemma_string_text_bounds(s, p0);
            lemma_skip_white_bounds(s, spec_parse_string_text(s, p0).at);
        } else if c == 't' {
            lemma_skip_white_bounds(s, spec_parse_true(s, p0).at);
        } else if c == 'f' {
            lemma_skip_white_bounds(s, spec_parse_false(s, p0).at);
        } else if c == 'n' {
            lemma_skip_white_bounds(s, spec_parse_null(s, p0).at);
        } else if c == '-' || is_digit(c) {
            lemma_digit_run_end_bounds(s, p0 + 1);
            lemma_skip_white_bounds(s, spec_digit_run_end(s, p0 + 1));
        } else {
            lemma_skip_white_bounds(s, p0);
        }
    } else {
        lemma_skip_white_bounds(s, p0);
    }
}

/// An array decode keeps the cursor within the input and consumes at least
/// the opening bracket on success.
pub proof fn lemma_parse_list_bounds(s: Seq<char>, pos: int)
    requires
        0 <= pos <= s.len(),
    ensures
        pos <= spec_parse_list(s, pos).at <= s.len(),
        spec_parse_list(s, pos).found is Some ==> spec_parse_list(s, pos).at > pos,
    decreases s.len() - pos, 0int,
{
    if pos < s.len() {
        lemma_parse_list_inside_bounds(s, pos + 1);
    }
}

/// An element chain decode keeps the cursor within the input and consumes at
/// least the closing bracket on success.
pub proof fn lemma_parse_list_inside_bounds(s: Seq<char>, pos: int)
    requires
        0 <= pos <= s.len(),
    ensures
        pos <= spec_parse_list_inside(s, pos).at <= s.len(),
        spec_parse_list_inside(s, pos).found is Some ==> spec_parse_list_inside(s, pos).at
            > pos,
    decreases s.len() - pos, 2int,
{
    lemma_parse_inside_bounds(s, pos);
    let v = spec_parse_inside(s, pos);
    lemma_skip_list_sep_bounds(s, v.at);
    let p1 = spec_skip_list_sep(s, v.at);
    if at_is(s, p1, ']') {
    } else if !(0 <= p1 && p1 < s.len()) {
    } else if v.found is None || p1 <= pos {
    } else {
        lemma_parse_list_inside_bounds(s, p1);
    }
}

/// An object decode keeps the cursor within the input and consumes at least
/// the opening brace on success.
pub proof fn lemma_parse_map_bounds(s: Seq<char>, pos: int)
    requires
        0 <= pos <= s.len(),
    ensures
        pos <= spec_parse_map(s, pos).at <= s.len(),
        spec_parse_map(s, pos).found is Some ==> spec_parse_map(s, pos).at > pos,
    decreases s.len() - pos, 0int,
{
    if pos < s.len() {
        lemma_parse_map_inside_bounds(s, pos + 1);
    }
}

/// A member chain decode keeps the cursor within the input and consumes at
/// least the key and the closing brace on success.
pub proof fn lemma_parse_map_inside_bounds(s: Seq<char>, pos: int)
    requires
        0 <= pos <= s.len(),
    ensures
        pos <= spec_parse_map_inside(s, pos).at <= s.len(),
        spec_parse_map_inside(s, pos).found is Some ==> spec_parse_map_inside(s, pos).at > pos,
    decreases s.len() - pos, 2int,
{
    lemma_skip_white_bounds(s, pos);
    let p0 = spec_skip_white(s, pos);
    if at_is(s, p0, '"') {
        lemma_string_text_bounds(s, p0);
        let k = spec_parse_string_text(s, p0);
        if k.found is Some {
            lemma_skip_pair_sep_bounds(s, k.at);
            let p1 = spec_skip_pair_sep(s, k.at);
            lemma_parse_inside_bounds(s, p1);
            let v = spec_parse_inside(s, p1);
            lemma_skip_list_sep_bounds(s, v.at);
            let p2 = spec_skip_list_sep(s, v.at);
            if at_is(s, p2, '}') {
            } else if !(0 <= p2 && p2 < s.len()) {
            } else if v.found is None || p2 <= pos {
            } else {
                lemma_parse_map_inside_bounds(s, p2);
            }
        }
    }
}

/// Skipping whitespace stops either at the end of the input or on a
/// character that is not whitespace.
pub proof fn lemma_skip_white_stops(s: Seq<char>, pos: int)
    requires
        0 <= pos <= s.len(),
    ensures
        spec_skip_white(s, pos) < s.len() ==> !white(s[spec_skip_white(s, pos)]),
    decreases s.len() - pos,
{
    if pos < s.len() && white(s[pos]) {
        lemma_skip_white_stops(s, pos + 1);
    }
}

/// The dispatcher always ends with a whitespace skip, so the cursor never
/// rests on whitespace while input remains.
pub proof fn lemma_parse_inside_stops_after_white(s: Seq<char>, pos: int)
    requires
        0 <= pos <= s.len(),
    ensures
        spec_parse_inside(s, pos).at < s.len() ==> !white(s[spec_parse_inside(s, pos).at]),
{
    lemma_skip_white_bounds(s, pos);
    let p0 = spec_skip_white(s, pos);
    if p0 < s.len() {
        let c = s[p0];
        if c == '{' {
            lemma_parse_map_bounds(s, p0);
            lemma_skip_white_stops(s, spec_parse_map(s, p0).at);
        } else if c == '[' {
            lemma_parse_list_bounds(s, p0);
            lemma_skip_white_stops(s, spec_parse_list(s, p0).at);
        } else if c == '"' {
            lemma_string_text_bounds(s, p0);
            lemma_skip_white_stops(s, spec_parse_string_text(s, p0).at);
        } else if c == 't' {
            lemma_skip_white_stops(s, spec_parse_true(s, p0).at);
        } else if c == 'f' {
            lemma_skip_white_stops(s, spec_parse_false(s, p0).at);
        } else if c == 'n' {
            lemma_skip_white_stops(s, spec_parse_null(s, p0).at);
        } else if c == '-' || is_digit(c) {
            lemma_digit_run_end_bounds(s, p0 + 1);
            lemma_skip_white_stops(s, spec_digit_run_end(s, p0 + 1));
        } else {
            lemma_skip_white_stops(s, p0);
        }
    } else {
        lemma_skip_white_stops(s, p0);
    }
}

/// Decoding is a pure function of the input text: equal documents decode to
/// equal trees, whichever parser instance reads them.
pub proof fn lemma_decode_deterministic(s1: Seq<char>, s2: Seq<char>)
    requires
        s1 == s2,
    ensures
        spec_parse_document(s1) == spec_parse_document(s2),
{
}

/// A successful parse consumes the whole document: whenever a tree comes
/// back, the dispatcher's cursor reached the end of the input.
pub proof fn lemma_success_consumes_all(s: Seq<char>)
    ensures
        spec_parse_document(s) is Some ==> spec_parse_inside(s, 0).at == s.len(),
{
    lemma_parse_inside_bounds(s, 0);
}

/// Trailing input is rejected: whenever the dispatcher leaves the cursor
/// short of the end of the input, the character it rests on is not
/// whitespace and the whole parse fails, even when a well-formed value was
/// decoded first.
pub proof fn lemma_trailing_input_rejected(s: Seq<char>)
    ensures
        spec_parse_inside(s, 0).at < s.len() ==> spec_parse_document(s) is None,
        spec_parse_inside(s, 0).at < s.len() ==> !white(s[spec_parse_inside(s, 0).at]),
{
    lemma_parse_inside_stops_after_white(s, 0);
}

} // verus!
