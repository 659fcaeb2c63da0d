use minjson::parse;
use minjson::ParseError;
use minjson::Value;

/// The shape the assertions compare against: the parsed tree with each
/// number literal converted to its floating-point value and each error
/// rendered as its one-line report.
#[derive(Debug, PartialEq)]
enum V {
    Null,
    True,
    False,
    Text(String),
    Number(f64),
    Array(Vec<V>),
    Object(Vec<(String, V)>),
}

fn v(value: Value) -> V {
    match value {
        Value::Null => V::Null,
        Value::True => V::True,
        Value::False => V::False,
        Value::Text(s) => V::Text(s),
        Value::Number(text) => V::Number(text.parse::<f64>().unwrap()),
        Value::Array(items) => V::Array(items.into_iter().map(v).collect()),
        Value::Object(pairs) => V::Object(pairs.into_iter().map(|(k, val)| (k, v(val))).collect()),
    }
}

fn p(input: &str) -> Result<V, String> {
    match parse(input) {
        Ok(value) => Ok(v(value)),
        Err(e) => Err(e.message()),
    }
}

#[test]
fn test_parse() {
    assert_eq!(p("null"), Ok(V::Null));
    assert_eq!(p("true"), Ok(V::True));
    assert_eq!(p("false"), Ok(V::False));
    assert_eq!(p("   null   "), Ok(V::Null));
    assert_eq!(p("\"\""), Ok(V::Text("".to_owned())));
    assert_eq!(p("\"\\u0041\""), Ok(V::Text("A".to_owned())));
    assert_eq!(p("\"null\""), Ok(V::Text("null".to_owned())));
    assert_eq!(p("\"nu\\\"ll\""), Ok(V::Text("nu\"ll".to_owned())));
    assert_eq!(p("\"nu\\\\ll\""), Ok(V::Text("nu\\ll".to_owned())));
    assert_eq!(
        p("\"nu\\\\ll\"1"),
        Err("Unexpected token '1' at position '8'".to_owned())
    );
    assert_eq!(
        p("\"nu\\\\ll\"  1"),
        Err("Unexpected token '1' at position '10'".to_owned())
    );
    assert_eq!(p("\"nu\\\\ll"), Err("Unexpected end of input".to_owned()));
    assert_eq!(p("0"), Ok(V::Number(0f64)));
    assert_eq!(p("-0"), Ok(V::Number(-0f64)));
    assert_eq!(p("1"), Ok(V::Number(1f64)));
    assert_eq!(p("1.0"), Ok(V::Number(1.0)));
    assert_eq!(p("3.14"), Ok(V::Number(3.14)));
    assert_eq!(p("[]"), Ok(V::Array(Vec::new())));
    assert_eq!(p("["), Err("Unexpected end of input".to_owned()));
    assert_eq!(p("   [     ]   "), Ok(V::Array(Vec::new())));
    assert_eq!(p("[1]"), Ok(V::Array(Vec::from([V::Number(1.)]))));
    assert_eq!(p("  [  1  ]  "), Ok(V::Array(Vec::from([V::Number(1.)]))));
    assert_eq!(
        p("[1,]"),
        Err("Unexpected token ']' at position '3'".to_owned())
    );
    assert_eq!(
        p("[,]"),
        Err("Unexpected token ',' at position '1'".to_owned())
    );
    assert_eq!(
        p("[[[]]]"),
        Ok(V::Array(Vec::from([V::Array(Vec::from([V::Array(
            Vec::new()
        )]))])))
    );
    assert_eq!(
        p("[[[1], 2], 3]"),
        Ok(V::Array(Vec::from([
            V::Array(Vec::from([
                V::Array(Vec::from([V::Number(1.)])),
                V::Number(2.),
            ])),
            V::Number(3.)
        ])))
    );
    assert_eq!(p("{}"), Ok(V::Object(Vec::new())));
    assert_eq!(
        p("{ \"hello\" : \"world\"  }  "),
        Ok(V::Object(Vec::from([(
            "hello".to_owned(),
            V::Text("world".to_owned())
        )])))
    );
    assert_eq!(
        p("{ \"c\" : \"u\"  ,  \"l\": 8  }  "),
        Ok(V::Object(Vec::from([
            ("c".to_owned(), V::Text("u".to_owned())),
            ("l".to_owned(), V::Number(8.))
        ])))
    );
    assert_eq!(
        p("{\"c\":true,\"l\":null}"),
        Ok(V::Object(Vec::from([
            ("c".to_owned(), V::True),
            ("l".to_owned(), V::Null)
        ])))
    );
    assert_eq!(
        p("{\"c\":true,}"),
        Err("Unexpected token '}' at position '10'".to_owned())
    );
    assert_eq!(
        p("{\"c\":tra}"),
        Err("Unexpected token 'a' at position '7'".to_owned())
    );
}

#[test]
fn test_literals_with_whitespace() {
    assert_eq!(p("  true  "), Ok(V::True));
    assert_eq!(p("\t\r\nfalse"), Ok(V::False));
    assert_eq!(p("null\n"), Ok(V::Null));
    assert_eq!(p("tru"), Err("Unexpected end of input".to_owned()));
    assert_eq!(p("nulL"), Err("Unexpected token 'L' at position '3'".to_owned()));
}

#[test]
fn test_escape_decoding() {
    assert_eq!(p("\"\\n\""), Ok(V::Text("\n".to_owned())));
    assert_eq!(p("\"\\t\""), Ok(V::Text("\t".to_owned())));
    assert_eq!(p("\"\\r\""), Ok(V::Text("\r".to_owned())));
    assert_eq!(p("\"\\\"\""), Ok(V::Text("\"".to_owned())));
    assert_eq!(p("\"\\\\\""), Ok(V::Text("\\".to_owned())));
    assert_eq!(p("\"\\/\""), Ok(V::Text("/".to_owned())));
    assert_eq!(p("\"a\\u004ab\""), Ok(V::Text("aJb".to_owned())));
    assert_eq!(p("\"\\u004A\""), Ok(V::Text("J".to_owned())));
}

#[test]
fn test_unsupported_escapes() {
    assert_eq!(
        p("\"\\b\""),
        Err("Unexpected token 'b' at position '2'".to_owned())
    );
    assert_eq!(
        p("\"\\f\""),
        Err("Unexpected token 'f' at position '2'".to_owned())
    );
    assert_eq!(p("\"\\"), Err("Unexpected end of input".to_owned()));
}

#[test]
fn test_unicode_escape_errors() {
    // an unpaired surrogate half is no character; the escape's `u` is reported
    assert_eq!(
        p("\"\\uD800\""),
        Err("Unexpected token 'u' at position '2'".to_owned())
    );
    assert_eq!(
        p("\"\\u00g1\""),
        Err("Unexpected token 'g' at position '5'".to_owned())
    );
    assert_eq!(p("\"\\u00"), Err("Unexpected end of input".to_owned()));
}

#[test]
fn test_numeric_edge_cases() {
    assert_eq!(p("0"), Ok(V::Number(0.0)));
    assert_eq!(p("3.14"), Ok(V::Number(3.14)));
    assert_eq!(p("-12.5"), Ok(V::Number(-12.5)));
    assert_eq!(p("0.5"), Ok(V::Number(0.5)));
    // the grammar accepts a trailing dot with no digit after it
    assert_eq!(p("1."), Ok(V::Number(1.0)));
    // the exponent is consumed but contributes nothing to the value
    assert_eq!(p("1e5"), Ok(V::Number(1.0)));
    assert_eq!(p("2E+3"), Ok(V::Number(2.0)));
    // a bare minus must be followed by a digit
    assert_eq!(p("-"), Err("Unexpected end of input".to_owned()));
    assert_eq!(p("-x"), Err("Unexpected token 'x' at position '1'".to_owned()));
    // an exponent marker demands at least one digit
    assert_eq!(p("1e"), Err("Unexpected end of input".to_owned()));
    assert_eq!(p("1e+"), Err("Unexpected end of input".to_owned()));
    assert_eq!(p("1e+x"), Err("Unexpected token 'x' at position '3'".to_owned()));
    match parse("-0") {
        Ok(Value::Number(text)) => {
            let f: f64 = text.parse().unwrap();
            assert!(f == 0.0 && f.is_sign_negative());
        }
        other => panic!("expected a number, got {:?}", other),
    }
}

#[test]
fn test_numeric_conversion_failure() {
    // a zero directly before an exponent marker, or before a dot with no
    // digits, leaves literal text with no numeric content
    assert_eq!(p("0e5"), Err("Failed to parse number".to_owned()));
    assert_eq!(p("0E1"), Err("Failed to parse number".to_owned()));
    assert_eq!(p("0."), Err("Failed to parse number".to_owned()));
    assert_eq!(p("0.e1"), Err("Failed to parse number".to_owned()));
    assert_eq!(parse("0e5"), Err(ParseError::NumericConversionFailure));
}

#[test]
fn test_empty_and_whitespace_input() {
    assert_eq!(p(""), Err("Unexpected end of input".to_owned()));
    assert_eq!(p("   "), Err("Unexpected end of input".to_owned()));
    assert_eq!(p("\t\r\n"), Err("Unexpected end of input".to_owned()));
}

#[test]
fn test_object_errors() {
    assert_eq!(p("{"), Err("Unexpected end of input".to_owned()));
    assert_eq!(p("{1:2}"), Err("Unexpected token '1' at position '1'".to_owned()));
    assert_eq!(
        p("{\"a\" 1}"),
        Err("Unexpected token '1' at position '5'".to_owned())
    );
    assert_eq!(
        p("{\"a\":}"),
        Err("Unexpected token '}' at position '5'".to_owned())
    );
}

#[test]
fn test_array_errors() {
    assert_eq!(p("[1 2]"), Err("Unexpected token '2' at position '3'".to_owned()));
    assert_eq!(p("[1,"), Err("Unexpected end of input".to_owned()));
}

#[test]
fn test_order_and_duplicates_preserved() {
    assert_eq!(
        p("{\"b\":1,\"a\":2,\"b\":3}"),
        Ok(V::Object(Vec::from([
            ("b".to_owned(), V::Number(1.)),
            ("a".to_owned(), V::Number(2.)),
            ("b".to_owned(), V::Number(3.))
        ])))
    );
    assert_eq!(
        p("[3,1,2]"),
        Ok(V::Array(Vec::from([
            V::Number(3.),
            V::Number(1.),
            V::Number(2.)
        ])))
    );
}

#[test]
fn test_positions_count_characters() {
    // offsets are decoded characters, not bytes
    assert_eq!(
        p("\"\u{e9}\u{e9}\" x"),
        Err("Unexpected token 'x' at position '5'".to_owned())
    );
    assert_eq!(
        p("\u{e9}"),
        Err("Unexpected token '\u{e9}' at position '0'".to_owned())
    );
}

#[test]
fn test_error_values_and_messages() {
    assert_eq!(parse("[,]"), Err(ParseError::UnexpectedToken(',', 1)));
    assert_eq!(parse(""), Err(ParseError::UnexpectedEndOfInput));
    assert_eq!(
        ParseError::UnexpectedToken('x', 123).message(),
        "Unexpected token 'x' at position '123'".to_owned()
    );
    assert_eq!(
        ParseError::UnexpectedToken('y', 0).message(),
        "Unexpected token 'y' at position '0'".to_owned()
    );
    assert_eq!(
        ParseError::UnexpectedEndOfInput.message(),
        "Unexpected end of input".to_owned()
    );
    assert_eq!(
        ParseError::NumericConversionFailure.message(),
        "Failed to parse number".to_owned()
    );
}

#[test]
fn test_to_string() {
    assert_eq!(
        Value::Text("hello".to_owned()).to_string(),
        Ok("hello".to_owned())
    );
    assert_eq!(Value::Null.to_string(), Err(()));
    assert_eq!(Value::Array(Vec::new()).to_string(), Err(()));
}
