//! The executable decoder.
//!
//! [`MorokoshiJsonParser`] owns the input as a random-access character
//! sequence plus a cursor. Each decoding procedure takes the input and a
//! cursor position and returns its result together with the new position;
//! every one of them is proved to return exactly what the matching
//! specification function in [`crate::grammar`] says.

use vstd::prelude::*;

use vstd::std_specs::iter::IteratorSpec;

use crate::grammar::at_is;
use crate::grammar::clip;
use crate::grammar::digit_val;
use crate::grammar::is_digit;
use crate::grammar::is_run_digit;
use crate::grammar::lemma_string_text_bounds;
use crate::grammar::spec_all_digits;
use crate::grammar::spec_digit_run_end;
use crate::grammar::spec_digits_value;
use crate::grammar::spec_find_quote;
use crate::grammar::spec_parse_at;
use crate::grammar::spec_parse_false;
use crate::grammar::spec_parse_inside;
use crate::grammar::spec_parse_list;
use crate::grammar::spec_parse_list_inside;
use crate::grammar::spec_parse_map;
use crate::grammar::spec_parse_map_inside;
use crate::grammar::spec_parse_null;
use crate::grammar::spec_parse_number;
use crate::grammar::spec_parse_string;
use crate::grammar::spec_parse_string_text;
use crate::grammar::spec_parse_true;
use crate::grammar::spec_skip_list_sep;
use crate::grammar::spec_skip_pair_sep;
use crate::grammar::spec_skip_white;
use crate::grammar::white;
use crate::laws::lemma_parse_inside_bounds;
use crate::value::opt_model;
use crate::value::opt_wf;
use crate::value::JsonObject;
use crate::value::ListObject;
use crate::value::MapObject;

verus! {

broadcast use vstd::string::group_string_axioms;

/// A single-use decoder over one document.
///
/// Build it with [`MorokoshiJsonParser::new`], then call
/// [`MorokoshiJsonParser::parse`] once. Parsing consumes the cursor, so a
/// second call resumes wherever the first stopped.
pub struct MorokoshiJsonParser {
    input: Vec<char>,
    pos: usize,
}

/// The digits composed so far by the number decoder: everything after the
/// sign when there is one, the whole token otherwise.
spec fn num_digits(s: Seq<char>, pos: int, neg: bool, p: int) -> Seq<char> {
    if neg {
        s.subrange(pos + 1, p)
    } else {
        s.subrange(pos, p)
    }
}

/// Relies on `char::is_whitespace`: the host's whitespace classification,
/// a function of the character alone.
#[verifier::external_body]
fn is_white(c: char) -> (r: bool)
    ensures
        r == white(c),
{
    c.is_whitespace()
}

/// Relies on `String::push`: appends the given character to the end of the
/// string.
#[verifier::external_body]
fn push_char(text: &mut String, c: char)
    ensures
        final(text)@ == old(text)@.push(c),
{
    text.push(c);
}

impl MorokoshiJsonParser {
    /// The document this parser was built over.
    pub closed spec fn text(self) -> Seq<char> {
        self.input@
    }

    /// The cursor position: how much of the input has been consumed.
    pub closed spec fn at(self) -> int {
        self.pos as int
    }

    #[verifier::type_invariant]
    spec fn inv(self) -> bool {
        self.pos <= self.input.len()
    }

    /// Builds a parser holding the whole document, with the cursor at the
    /// start.
    pub fn new(input: String) -> (parser: MorokoshiJsonParser)
        ensures
            parser.text() == input@,
            parser.at() == 0,
    {
        let mut chars: Vec<char> = Vec::new();
        let mut it = input.as_str().chars();
        proof {
            assert(chars@ + it.remaining() =~= input@);
        }
        loop
            invariant_except_break
                chars@ + it.remaining() =~= input@,
                it.decrease() is Some,
            ensures
                chars@ =~= input@,
            decreases it.decrease()->0,
        {
            match it.next() {
                Some(c) => {
                    chars.push(c);
                    proof {
                        assert(chars@ + it.remaining() =~= input@);
                    }
                },
                None => {
                    proof {
                        assert(chars@ =~= input@);
                    }
                    break ;
                },
            }
        }
        MorokoshiJsonParser { input: chars, pos: 0 }
    }

    /// The character under the cursor, or nothing at or past the end of the
    /// input. Reading past the end is never a fault.
    fn curr(input: &Vec<char>, pos: usize) -> (c: Option<char>)
        ensures
            c == (if (pos as int) < input@.len() {
                Some(input@[pos as int])
            } else {
                None::<char>
            }),
    {
        if pos < input.len() {
            Some(input[pos])
        } else {
            None
        }
    }

    /// Advances the cursor one position, saturating at the end of the input.
    fn next(input: &Vec<char>, pos: usize) -> (r: usize)
        requires
            pos <= input.len(),
        ensures
            r == clip(input@, pos as int + 1),
            r <= input.len(),
    {
        if pos < input.len() {
            pos + 1
        } else {
            pos
        }
    }

    /// The character at `pos` exists and is `c`.
    fn char_at_is(input: &Vec<char>, pos: usize, c: char) -> (r: bool)
        ensures
            r == at_is(input@, pos as int, c),
    {
        pos < input.len() && input[pos] == c
    }

    /// Whether `c` is a decimal digit.
    fn digit_ch(c: char) -> (r: bool)
        ensures
            r == is_digit(c),
    {
        48 <= (c as u32) && (c as u32) <= 57
    }

    /// The literal `null`: four exact characters, the cursor ending one past
    /// the last examined position. The input ending mid-literal fails
    /// cleanly.
    fn parse_null(input: &Vec<char>, pos: usize) -> (r: (Option<JsonObject>, usize))
        requires
            pos <= input.len(),
        ensures
            ({
                let st = spec_parse_null(input@, pos as int);
                opt_model(r.0) == st.found && r.1 == st.at && opt_wf(r.0)
            }),
            r.1 <= input.len(),
    {
        if !Self::char_at_is(input, pos, 'n') {
            (None, Self::next(input, pos))
        } else if !Self::char_at_is(input, pos + 1, 'u') {
            (None, Self::next(input, pos + 1))
        } else if !Self::char_at_is(input, pos + 2, 'l') {
            (None, Self::next(input, pos + 2))
        } else if !Self::char_at_is(input, pos + 3, 'l') {
            (None, Self::next(input, pos + 3))
        } else {
            (Some(JsonObject::Null), pos + 4)
        }
    }

    /// The literal `true`, as for `null`.
    fn parse_true(input: &Vec<char>, pos: usize) -> (r: (Option<JsonObject>, usize))
        requires
            pos <= input.len(),
        ensures
            ({
                let st = spec_parse_true(input@, pos as int);
                opt_model(r.0) == st.found && r.1 == st.at && opt_wf(r.0)
            }),
            r.1 <= input.len(),
    {
        if !Self::char_at_is(input, pos, 't') {
            (None, Self::next(input, pos))
        } else if !Self::char_at_is(input, pos + 1, 'r') {
            (None, Self::next(input, pos + 1))
        } else if !Self::char_at_is(input, pos + 2, 'u') {
            (None, Self::next(input, pos + 2))
        } else if !Self::char_at_is(input, pos + 3, 'e') {
            (None, Self::next(input, pos + 3))
        } else {
            (Some(JsonObject::Boolean(true)), pos + 4)
        }
    }

    /// The literal `false`, as for `null`.
    fn parse_false(input: &Vec<char>, pos: usize) -> (r: (Option<JsonObject>, usize))
        requires
            pos <= input.len(),
        ensures
            ({
                let st = spec_parse_false(input@, pos as int);
                opt_model(r.0) == st.found && r.1 == st.at && opt_wf(r.0)
            }),
            r.1 <= input.len(),
    {
        if !Self::char_at_is(input, pos, 'f') {
            (None, Self::next(input, pos))
        } else if !Self::char_at_is(input, pos + 1, 'a') {
            (None, Self::next(input, pos + 1))
        } else if !Self::char_at_is(input, pos + 2, 'l') {
            (None, Self::next(input, pos + 2))
        } else if !Self::char_at_is(input, pos + 3, 's') {
            (None, Self::next(input, pos + 3))
        } else if !Self::char_at_is(input, pos + 4, 'e') {
            (None, Self::next(input, pos + 4))
        } else {
            (Some(JsonObject::Boolean(false)), pos + 5)
        }
    }

    /// Whether `c` continues a number.
    fn run_digit(c: char) -> (r: bool)
        ensures
            r == is_run_digit(c),
    {
        48 < (c as u32) && (c as u32) < 57
    }

    /// A number: the character under the cursor — a minus sign or a digit —
    /// then the run of continuation digits, composed and read as a signed
    /// 64-bit integer. A lone minus sign or a value outside the 64-bit range
    /// fails; the cursor rests after the run either way.
    fn parse_number(input: &Vec<char>, pos: usize) -> (r: (Option<JsonObject>, usize))
        requires
            pos < input.len(),
            input@[pos as int] == '-' || is_digit(input@[pos as int]),
        ensures
            ({
                let st = spec_parse_number(input@, pos as int);
                opt_model(r.0) == st.found && r.1 == st.at && opt_wf(r.0)
            }),
            r.1 <= input.len(),
    {
        let n = input.len();
        let first = input[pos];
        let neg = first == '-';
        // the magnitude saturates in knowledge, not in value: past 2^63 the
        // token is out of range for either sign, so only `over` matters
        let mut mag: u64 = if neg {
            0
        } else {
            ((first as u32) - 48) as u64
        };
        let mut over = false;
        let mut p = pos + 1;
        proof {
            let ds0 = num_digits(input@, pos as int, neg, p as int);
            assert(spec_digits_value(Seq::<char>::empty()) == 0);
            if neg {
                assert(ds0 =~= Seq::<char>::empty());
            } else {
                assert(ds0.len() == 1);
                assert(ds0.last() == input@[pos as int]);
                assert(ds0.drop_last() =~= Seq::<char>::empty());
                assert(spec_digits_value(ds0) == digit_val(input@[pos as int]));
            }
        }
        while p < n && Self::run_digit(input[p])
            invariant
                n == input.len(),
                pos < n,
                input@[pos as int] == '-' || is_digit(input@[pos as int]),
                neg == (input@[pos as int] == '-'),
                pos + 1 <= p <= n,
                spec_digit_run_end(input@, pos as int + 1) == spec_digit_run_end(
                    input@,
                    p as int,
                ),
                spec_all_digits(num_digits(input@, pos as int, neg, p as int)),
                !over ==> mag == spec_digits_value(num_digits(input@, pos as int, neg, p as int))
                    && mag <= 0x8000_0000_0000_0000u64,
                over ==> spec_digits_value(num_digits(input@, pos as int, neg, p as int))
                    > 0x8000_0000_0000_0000,
            decreases n - p,
        {
            let c = input[p];
            let d = ((c as u32) - 48) as u64;
            let ghost prev = num_digits(input@, pos as int, neg, p as int);
            if mag > 922337203685477580u64 {
                // appending any further digit pushes the value past 2^63
                over = true;
            } else {
                mag = mag * 10 + d;
            }
            p = p + 1;
            proof {
                let cur = num_digits(input@, pos as int, neg, p as int);
                assert(cur.drop_last() =~= prev);
                assert(cur.last() == c);
            }
        }
        let ghost s = input@;
        let ghost end = p as int;
        let ghost tok = s.subrange(pos as int, end);
        let ghost ds = num_digits(s, pos as int, neg, end);
        proof {
            if neg {
                assert(tok[0] == s[pos as int]);
                assert(tok.drop_first() =~= ds);
            } else {
                assert(tok =~= ds);
            }
        }
        if neg && p == pos + 1 {
            // a bare minus sign composes no digits
            return (None, p);
        }
        if over {
            return (None, p);
        }
        if neg {
            if mag == 0x8000_0000_0000_0000u64 {
                (Some(JsonObject::Number(i64::MIN)), p)
            } else {
                (Some(JsonObject::Number(-(mag as i64))), p)
            }
        } else {
            if mag > 0x7fff_ffff_ffff_ffffu64 {
                (None, p)
            } else {
                (Some(JsonObject::Number(mag as i64)), p)
            }
        }
    }

    /// The text of a string: the cursor stands on the opening quote, and
    /// characters are copied verbatim — no escape decoding, no character
    /// rejected — until the next quote, which is consumed too. Fails, with
    /// the cursor at the end of the input, when no closing quote follows.
    fn parse_string_inside(input: &Vec<char>, pos: usize) -> (r: (Option<String>, usize))
        requires
            pos <= input.len(),
        ensures
            ({
                let st = spec_parse_string_text(input@, pos as int);
                (match r.0 {
                    Some(t) => st.found == Some(t@),
                    None => st.found is None,
                }) && r.1 == st.at
            }),
            r.1 <= input.len(),
    {
        let n = input.len();
        let start = Self::next(input, pos);
        let mut text = String::new();
        let mut p = start;
        while p < n && !Self::char_at_is(input, p, '"')
            invariant
                n == input.len(),
                start <= p <= n,
                spec_find_quote(input@, start as int) == spec_find_quote(input@, p as int),
                text@ == input@.subrange(start as int, p as int),
            decreases n - p,
        {
            push_char(&mut text, input[p]);
            p = p + 1;
            proof {
                assert(text@ =~= input@.subrange(start as int, p as int));
            }
        }
        if p < n {
            (Some(text), p + 1)
        } else {
            (None, p)
        }
    }

    /// A string value.
    fn parse_string(input: &Vec<char>, pos: usize) -> (r: (Option<JsonObject>, usize))
        requires
            pos <= input.len(),
        ensures
            ({
                let st = spec_parse_string(input@, pos as int);
                opt_model(r.0) == st.found && r.1 == st.at && opt_wf(r.0)
            }),
            r.1 <= input.len(),
    {
        let (text, p) = Self::parse_string_inside(input, pos);
        match text {
            Some(t) => (Some(JsonObject::String(t)), p),
            None => (None, p),
        }
    }

    /// Advances past a run of whitespace; stops at the end of the input.
    fn skip_whitespace(input: &Vec<char>, pos: usize) -> (r: usize)
        requires
            pos <= input.len(),
        ensures
            r == spec_skip_white(input@, pos as int),
            pos <= r <= input.len(),
    {
        let mut p = pos;
        while p < input.len() && is_white(input[p])
            invariant
                pos <= p <= input.len(),
                spec_skip_white(input@, pos as int) == spec_skip_white(input@, p as int),
            decreases input.len() - p,
        {
            p = p + 1;
        }
        p
    }

    /// Advances past a run of whitespace and commas; stops at the end of the
    /// input.
    fn skip_comma(input: &Vec<char>, pos: usize) -> (r: usize)
        requires
            pos <= input.len(),
        ensures
            r == spec_skip_list_sep(input@, pos as int),
            pos <= r <= input.len(),
    {
        let mut p = pos;
        while p < input.len() && (is_white(input[p]) || input[p] == ',')
            invariant
                pos <= p <= input.len(),
                spec_skip_list_sep(input@, pos as int) == spec_skip_list_sep(input@, p as int),
            decreases input.len() - p,
        {
            p = p + 1;
        }
        p
    }

    /// Advances past a run of whitespace and colons; stops at the end of the
    /// input.
    fn skip_colon(input: &Vec<char>, pos: usize) -> (r: usize)
        requires
            pos <= input.len(),
        ensures
            r == spec_skip_pair_sep(input@, pos as int),
            pos <= r <= input.len(),
    {
        let mut p = pos;
        while p < input.len() && (is_white(input[p]) || input[p] == ':')
            invariant
                pos <= p <= input.len(),
                spec_skip_pair_sep(input@, pos as int) == spec_skip_pair_sep(input@, p as int),
            decreases input.len() - p,
        {
            p = p + 1;
        }
        p
    }

    /// One value: leading whitespace, a construct chosen by single-character
    /// lookahead, trailing whitespace. This is the recursion point container
    /// decoders use for their element and member values.
    fn parse_inside(input: &Vec<char>, pos: usize) -> (r: (Option<JsonObject>, usize))
        requires
            pos <= input.len(),
        ensures
            ({
                let st = spec_parse_inside(input@, pos as int);
                opt_model(r.0) == st.found && r.1 == st.at && opt_wf(r.0)
            }),
            r.1 <= input.len(),
        decreases input.len() - pos, 1int,
    {
        let p0 = Self::skip_whitespace(input, pos);
        let (found, p_mid) = if p0 < input.len() {
            let c = input[p0];
            if c == '{' {
                Self::parse_map(input, p0)
            } else if c == '[' {
                Self::parse_list(input, p0)
            } else if c == '"' {
                Self::parse_string(input, p0)
            } else if c == 't' {
                Self::parse_true(input, p0)
            } else if c == 'f' {
                Self::parse_false(input, p0)
            } else if c == 'n' {
                Self::parse_null(input, p0)
            } else if c == '-' || Self::digit_ch(c) {
                Self::parse_number(input, p0)
            } else {
                (None, p0)
            }
        } else {
            (None, p0)
        };
        let p_end = Self::skip_whitespace(input, p_mid);
        (found, p_end)
    }

    /// An array: the opening bracket, then the element chain.
    fn parse_list(input: &Vec<char>, pos: usize) -> (r: (Option<JsonObject>, usize))
        requires
            pos < input.len(),
        ensures
            ({
                let st = spec_parse_list(input@, pos as int);
                opt_model(r.0) == st.found && r.1 == st.at && opt_wf(r.0)
            }),
            r.1 <= input.len(),
        decreases input.len() - pos, 0int,
    {
        let (chain, p) = Self::parse_list_inside(input, pos + 1);
        match chain {
            Some(list) => (Some(JsonObject::List(list)), p),
            None => (None, p),
        }
    }

    /// The element chain of an array, after the opening bracket.
    ///
    /// One value is attempted; finding none is how an empty array shows
    /// itself, not an error by itself. After a separator run, a closing
    /// bracket ends the chain: one node with the value if there was one,
    /// else the empty sentinel. Otherwise the chain must continue, which
    /// demands that a value was found; the input ending before a closing
    /// bracket fails.
    fn parse_list_inside(input: &Vec<char>, pos: usize) -> (r: (Option<ListObject>, usize))
        requires
            pos <= input.len(),
        ensures
            ({
                let st = spec_parse_list_inside(input@, pos as int);
                (match r.0 {
                    Some(chain) => st.found == Some(chain.chain_model()) && chain.wf(),
                    None => st.found is None,
                }) && r.1 == st.at
            }),
            r.1 <= input.len(),
        decreases input.len() - pos, 2int,
    {
        let (value, pv) = Self::parse_inside(input, pos);
        let p1 = Self::skip_comma(input, pv);
        if Self::char_at_is(input, p1, ']') {
            match value {
                Some(x) => (
                    Some(ListObject { value: Some(Box::new(x)), next: None }),
                    p1 + 1,
                ),
                None => (Some(ListObject { value: None, next: None }), p1 + 1),
            }
        } else if p1 >= input.len() {
            // the input ended before the closing bracket
            (None, p1)
        } else {
            match value {
                None => {
                    // no element and no closing bracket: not an array
                    (None, p1)
                },
                Some(x) => {
                    proof {
                        lemma_parse_inside_bounds(input@, pos as int);
                    }
                    let (rest, p2) = Self::parse_list_inside(input, p1);
                    match rest {
                        Some(tail) => (
                            Some(
                                ListObject {
                                    value: Some(Box::new(x)),
                                    next: Some(Box::new(tail)),
                                },
                            ),
                            p2,
                        ),
                        None => (None, p2),
                    }
                },
            }
        }
    }

    /// An object: the opening brace, then the member chain.
    fn parse_map(input: &Vec<char>, pos: usize) -> (r: (Option<JsonObject>, usize))
        requires
            pos < input.len(),
        ensures
            ({
                let st = spec_parse_map(input@, pos as int);
                opt_model(r.0) == st.found && r.1 == st.at && opt_wf(r.0)
            }),
            r.1 <= input.len(),
        decreases input.len() - pos, 0int,
    {
        let (chain, p) = Self::parse_map_inside(input, pos + 1);
        match chain {
            Some(map) => (Some(JsonObject::Object(map)), p),
            None => (None, p),
        }
    }

    /// The member chain of an object, after the opening brace.
    ///
    /// A member unconditionally starts with a quoted key — checked before
    /// the empty-object case could ever be seen, so `{}` fails here — then a
    /// separator run, the member's value, and another separator run. A
    /// closing brace ends the chain with one node; otherwise the chain
    /// continues. A missing value, or the input ending before the closing
    /// brace, fails.
    fn parse_map_inside(input: &Vec<char>, pos: usize) -> (r: (Option<MapObject>, usize))
        requires
            pos <= input.len(),
        ensures
            ({
                let st = spec_parse_map_inside(input@, pos as int);
                (match r.0 {
                    Some(chain) => st.found == Some(chain.chain_model()) && chain.wf(),
                    None => st.found is None,
                }) && r.1 == st.at
            }),
            r.1 <= input.len(),
        decreases input.len() - pos, 2int,
    {
        let p0 = Self::skip_whitespace(input, pos);
        if !Self::char_at_is(input, p0, '"') {
            return (None, p0);
        }
        proof {
            lemma_string_text_bounds(input@, p0 as int);
        }
        let (key_found, pk) = Self::parse_string_inside(input, p0);
        match key_found {
            None => (None, pk),
            Some(key) => {
                let p1 = Self::skip_colon(input, pk);
                let (value, pv) = Self::parse_inside(input, p1);
                let p2 = Self::skip_comma(input, pv);
                if Self::char_at_is(input, p2, '}') {
                    match value {
                        Some(x) => (
                            Some(
                                MapObject {
                                    key: Some(key),
                                    value: Some(Box::new(x)),
                                    next: None,
                                },
                            ),
                            p2 + 1,
                        ),
                        None => (None, p2 + 1),
                    }
                } else if p2 >= input.len() {
                    // the input ended before the closing brace
                    (None, p2)
                } else {
                    match value {
                        None => (None, p2),
                        Some(x) => {
                            proof {
                                lemma_parse_inside_bounds(input@, p1 as int);
                            }
                            let (rest, p3) = Self::parse_map_inside(input, p2);
                            match rest {
                                Some(tail) => (
                                    Some(
                                        MapObject {
                                            key: Some(key),
                                            value: Some(Box::new(x)),
                                            next: Some(Box::new(tail)),
                                        },
                                    ),
                                    p3,
                                ),
                                None => (None, p3),
                            }
                        },
                    }
                }
            },
        }
    }

    /// Decodes one document: one dispatched value, after which any character
    /// still unconsumed — whitespace is already gone — fails the parse even
    /// though a well-formed value was found. The cursor is left wherever
    /// decoding stopped.
    pub fn parse(&mut self) -> (r: Option<JsonObject>)
        ensures
            final(self).text() == old(self).text(),
            ({
                let st = spec_parse_at(old(self).text(), old(self).at());
                opt_model(r) == st.found && final(self).at() == st.at && opt_wf(r)
            }),
    {
        proof {
            use_type_invariant(&*self);
        }
        let (found, p) = Self::parse_inside(&self.input, self.pos);
        self.pos = p;
        match Self::curr(&self.input, p) {
            Some(_) => None,
            None => found,
        }
    }

}

} // verus!
