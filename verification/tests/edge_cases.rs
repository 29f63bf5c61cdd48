//! Edge cases: trailing input, separator runs, documented grammar quirks,
//! range limits, and clean failure where the input ends mid-construct.

use morokoshi_json_parser::JsonObject;
use morokoshi_json_parser::ListObject;
use morokoshi_json_parser::MapObject;
use morokoshi_json_parser::MorokoshiJsonParser;

fn decode(text: &str) -> Option<JsonObject> {
    let mut parser = MorokoshiJsonParser::new(String::from(text));
    parser.parse()
}

#[test]
fn empty_input_fails() {
    assert_eq!(decode(""), None);
    assert_eq!(decode("   "), None);
}

#[test]
fn trailing_garbage_rejected() {
    // a valid value followed by a non-whitespace character fails the whole
    // parse, even though the prefix alone would succeed
    assert_eq!(decode("123x"), None);
    assert_eq!(decode("null!"), None);
    assert_eq!(decode("[] []"), None);
}

#[test]
fn surrounding_whitespace_tolerated() {
    assert_eq!(decode("  123  "), Some(JsonObject::Number(123)));
    assert_eq!(decode("\t\n null \n"), Some(JsonObject::Null));
}

#[test]
fn decoding_is_deterministic() {
    // same input, fresh parser instances: structurally equal trees
    let text = "{\"a\":[1,true,\"x\"],\"b\":null}";
    let first = decode(text);
    let second = decode(text);
    assert!(first.is_some());
    assert_eq!(first, second);
}

#[test]
fn parser_instance_is_single_use() {
    // a second parse on the same instance resumes at the stopped cursor
    let mut parser = MorokoshiJsonParser::new(String::from("123"));
    assert_eq!(parser.parse(), Some(JsonObject::Number(123)));
    assert_eq!(parser.parse(), None);
}

#[test]
fn corrupted_literals_fail() {
    assert_eq!(decode("tru3"), None);
    assert_eq!(decode("fa1se"), None);
    assert_eq!(decode("nul"), None);
    assert_eq!(decode("t"), None);
}

#[test]
fn empty_object_rejected() {
    // the member decoder demands a quoted key before it could ever see the
    // empty-object case, so `{}` fails although the node type could hold it
    assert_eq!(decode("{}"), None);
    assert_eq!(decode("{ }"), None);
}

#[test]
fn digit_gap_truncates_numbers() {
    // only `1` through `8` continue a number: the `0` after the `9` is left
    // unconsumed and then fails the top-level parse
    assert_eq!(decode("90"), None);
    assert_eq!(decode("19"), None);
    assert_eq!(decode("9"), Some(JsonObject::Number(9)));
    assert_eq!(decode("07"), Some(JsonObject::Number(7)));
    assert_eq!(decode("12345678"), Some(JsonObject::Number(12345678)));
}

#[test]
fn lone_minus_fails() {
    assert_eq!(decode("-"), None);
    assert_eq!(decode("-90"), None);
}

#[test]
fn numbers_out_of_range_fail() {
    // twenty composable digits exceed the signed 64-bit range
    assert_eq!(decode("88888888888888888888"), None);
    assert_eq!(decode("-88888888888888888888"), None);
    assert_eq!(
        decode("8888888888888888888"),
        Some(JsonObject::Number(8888888888888888888))
    );
    assert_eq!(
        decode("-8888888888888888888"),
        Some(JsonObject::Number(-8888888888888888888))
    );
}

#[test]
fn strings_copied_verbatim() {
    assert_eq!(
        decode("\"a b\tc\""),
        Some(JsonObject::String(String::from("a b\tc")))
    );
    // no escape decoding: the backslash ends up in the text, and the quote
    // after it closes the string
    assert_eq!(decode("\"a\\\"b\""), None);
}

#[test]
fn unterminated_constructs_fail() {
    assert_eq!(decode("\""), None);
    assert_eq!(decode("[123"), None);
    assert_eq!(decode("[123,"), None);
    assert_eq!(decode("{\"a\":123"), None);
    assert_eq!(decode("{\"a"), None);
}

#[test]
fn separators_are_runs() {
    // any mix of whitespace and commas separates elements; the colon between
    // a key and its value is a run too, and may even be absent
    let expected = Some(JsonObject::List(ListObject {
        value: Some(Box::new(JsonObject::Number(1))),
        next: Some(Box::new(ListObject {
            value: Some(Box::new(JsonObject::Number(2))),
            next: None,
        })),
    }));
    assert_eq!(decode("[1,2]"), expected);
    assert_eq!(decode("[1 , 2]"), expected);
    assert_eq!(decode("[1,,,2,]"), expected);
    let member = Some(JsonObject::Object(MapObject {
        key: Some(String::from("a")),
        value: Some(Box::new(JsonObject::Number(123))),
        next: None,
    }));
    assert_eq!(decode("{\"a\" : 123}"), member);
    assert_eq!(decode("{\"a\"123}"), member);
}

#[test]
fn empty_list_with_whitespace() {
    assert_eq!(
        decode("[ ]"),
        Some(JsonObject::List(ListObject {
            value: None,
            next: None,
        }))
    );
}

#[test]
fn nested_lists() {
    assert_eq!(
        decode("[[]]"),
        Some(JsonObject::List(ListObject {
            value: Some(Box::new(JsonObject::List(ListObject {
                value: None,
                next: None,
            }))),
            next: None,
        }))
    );
}

#[test]
fn missing_member_value_fails() {
    assert_eq!(decode("{\"a\":}"), None);
    assert_eq!(decode("{\"a\":,\"b\":1}"), None);
}

#[test]
fn unquoted_key_fails() {
    assert_eq!(decode("{a:1}"), None);
}

#[test]
fn stray_element_fails_cleanly() {
    // an undecodable element with no closing bracket is not an array
    assert_eq!(decode("[x]"), None);
    assert_eq!(decode("[1 x]"), None);
}

#[test]
fn failed_element_may_leave_a_sentinel_tail() {
    // the cursor is never rewound after a failed decode: here the failed
    // `null` attempt consumes up to the bracket, so the recursive step sees
    // an empty chain and the whole array keeps a sentinel tail node
    assert_eq!(
        decode("[1 nul,]"),
        Some(JsonObject::List(ListObject {
            value: Some(Box::new(JsonObject::Number(1))),
            next: Some(Box::new(ListObject {
                value: None,
                next: None,
            })),
        }))
    );
}
