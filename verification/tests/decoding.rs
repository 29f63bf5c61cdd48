//! Decoding tests: literals, numbers, strings, arrays and objects.

use morokoshi_json_parser::JsonObject;
use morokoshi_json_parser::ListObject;
use morokoshi_json_parser::MapObject;
use morokoshi_json_parser::MorokoshiJsonParser;

#[test]
fn it_works() {
    let result: i32 = 2 + 2;
    assert_eq!(result, 4);
}

#[test]
fn null() {
    let a = String::from("null");
    let mut parser = MorokoshiJsonParser::new(a);
    let result = parser.parse();
    assert_eq!(result, Some(JsonObject::Null));
}

#[test]
fn not_null() {
    let a = String::from("nu1l");
    let mut parser = MorokoshiJsonParser::new(a);
    let result = parser.parse();
    assert_eq!(result, None);
}

#[test]
fn true_test() {
    let a = String::from("true");
    let mut parser = MorokoshiJsonParser::new(a);
    let result = parser.parse();
    assert_eq!(result, Some(JsonObject::Boolean(true)));
}

#[test]
fn false_test() {
    let a = String::from("false");
    let mut parser = MorokoshiJsonParser::new(a);
    let result = parser.parse();
    assert_eq!(result, Some(JsonObject::Boolean(false)));
}

#[test]
fn number_positive_test() {
    let a = String::from("123");
    let mut parser = MorokoshiJsonParser::new(a);
    let result = parser.parse();
    assert_eq!(result, Some(JsonObject::Number(123)));
}

#[test]
fn number_negative_test() {
    let a = String::from("-123");
    let mut parser = MorokoshiJsonParser::new(a);
    let result = parser.parse();
    assert_eq!(result, Some(JsonObject::Number(-123)));
}

#[test]
fn not_number() {
    let a = String::from("-1f23");
    let mut parser = MorokoshiJsonParser::new(a);
    let result = parser.parse();
    assert_eq!(result, None);
}

#[test]
fn string() {
    let a = String::from("\"hello\"");
    let mut parser = MorokoshiJsonParser::new(a);
    let result = parser.parse();
    assert_eq!(result, Some(JsonObject::String(String::from("hello"))));
}

#[test]
fn not_string() {
    let a = String::from("\"hello");
    let mut parser = MorokoshiJsonParser::new(a);
    let result = parser.parse();
    assert_eq!(result, None);
}

#[test]
fn empty_list() {
    let a = String::from("[]");
    let mut parser = MorokoshiJsonParser::new(a);
    let result = parser.parse();
    assert_eq!(
        result,
        Some(JsonObject::List(ListObject {
            value: None,
            next: None,
        }))
    );
}

#[test]
fn one_element_list() {
    let a = String::from("[123]");
    let mut parser = MorokoshiJsonParser::new(a);
    let result = parser.parse();
    assert_eq!(
        result,
        Some(JsonObject::List(ListObject {
            value: Some(Box::new(JsonObject::Number(123))),
            next: None,
        }))
    );
}

#[test]
fn one_element_list2() {
    let a = String::from("[null]");
    let mut parser = MorokoshiJsonParser::new(a);
    let result = parser.parse();
    assert_eq!(
        result,
        Some(JsonObject::List(ListObject {
            value: Some(Box::new(JsonObject::Null)),
            next: None,
        }))
    );
}

#[test]
fn one_element_list3() {
    let a = String::from("[\"Hello\"]");
    let mut parser = MorokoshiJsonParser::new(a);
    let result = parser.parse();
    assert_eq!(
        result,
        Some(JsonObject::List(ListObject {
            value: Some(Box::new(JsonObject::String(String::from("Hello")))),
            next: None,
        }))
    );
}

#[test]
fn two_elements_list() {
    let a = String::from("[123,456]");
    let mut parser = MorokoshiJsonParser::new(a);
    let result = parser.parse();
    assert_eq!(
        result,
        Some(JsonObject::List(ListObject {
            value: Some(Box::new(JsonObject::Number(123))),
            next: Some(Box::new(ListObject {
                value: Some(Box::new(JsonObject::Number(456))),
                next: None,
            })),
        }))
    );
}

#[test]
fn two_elements_list2() {
    let a = String::from("[\"Hello\",\"World\"]");
    let mut parser = MorokoshiJsonParser::new(a);
    let result = parser.parse();
    assert_eq!(
        result,
        Some(JsonObject::List(ListObject {
            value: Some(Box::new(JsonObject::String(String::from("Hello")))),
            next: Some(Box::new(ListObject {
                value: Some(Box::new(JsonObject::String(String::from("World")))),
                next: None,
            })),
        }))
    );
}

#[test]
fn three_elements_list() {
    let a = String::from("[123,true,\"Hello\"]");
    let mut parser = MorokoshiJsonParser::new(a);
    let result = parser.parse();
    assert_eq!(
        result,
        Some(JsonObject::List(ListObject {
            value: Some(Box::new(JsonObject::Number(123))),
            next: Some(Box::new(ListObject {
                value: Some(Box::new(JsonObject::Boolean(true))),
                next: Some(Box::new(ListObject {
                    value: Some(Box::new(JsonObject::String(String::from("Hello")))),
                    next: None,
                })),
            })),
        }))
    );
}

#[test]
fn one_element_map() {
    let a = String::from("{\"a\":123}");
    let mut parser = MorokoshiJsonParser::new(a);
    let result = parser.parse();
    assert_eq!(
        result,
        Some(JsonObject::Object(MapObject {
            key: Some(String::from("a")),
            value: Some(Box::new(JsonObject::Number(123))),
            next: None,
        }))
    );
}

#[test]
fn two_elements_map() {
    let a = String::from("{\"a\":\"t\",\"b\":null}");
    let mut parser = MorokoshiJsonParser::new(a);
    let result = parser.parse();
    assert_eq!(
        result,
        Some(JsonObject::Object(MapObject {
            key: Some(String::from("a")),
            value: Some(Box::new(JsonObject::String(String::from("t")))),
            next: Some(Box::new(MapObject {
                key: Some(String::from("b")),
                value: Some(Box::new(JsonObject::Null)),
                next: None,
            })),
        }))
    );
}

#[test]
fn nested_map() {
    let a = String::from("{\"a\":{\"b\":123},\"c\":null,\"d\":[1,false,{\"4\":true}]}");
    let mut parser = MorokoshiJsonParser::new(a);
    let result = parser.parse();
    assert_eq!(
        result,
        Some(JsonObject::Object(MapObject {
            key: Some(String::from("a")),
            value: Some(Box::new(JsonObject::Object(MapObject {
                key: Some(String::from("b")),
                value: Some(Box::new(JsonObject::Number(123))),
                next: None,
            }))),
            next: Some(Box::new(MapObject {
                key: Some(String::from("c")),
                value: Some(Box::new(JsonObject::Null)),
                next: Some(Box::new(MapObject {
                    key: Some(String::from("d")),
                    value: Some(Box::new(JsonObject::List(ListObject {
                        value: Some(Box::new(JsonObject::Number(1))),
                        next: Some(Box::new(ListObject {
                            value: Some(Box::new(JsonObject::Boolean(false))),
                            next: Some(Box::new(ListObject {
                                value: Some(Box::new(JsonObject::Object(MapObject {
                                    key: Some(String::from("4")),
                                    value: Some(Box::new(JsonObject::Boolean(true))),
                                    next: None,
                                }))),
                                next: None,
                            })),
                        })),
                    }))),
                    next: None,
                })),
            })),
        }))
    )
}
