use simple_json::json_object::Object as JsonObject;
use simple_json::json_parser::{transition, Parser, ParserError, ParserState};
use simple_json::json_tokenizer::{Token, Tokenizer};

fn parse(text: &str) -> Result<JsonObject, ParserError> {
    Parser::new().parse(text)
}

#[test]
fn white_space_only_is_empty() {
    assert_eq!(parse(""), Err(ParserError::Empty));
    assert_eq!(parse("   "), Err(ParserError::Empty));
    assert_eq!(parse(" \t\r\n "), Err(ParserError::Empty));
    assert_eq!(parse("\u{3000}\u{a0}\u{2028}"), Err(ParserError::Empty));
}

#[test]
fn empty_object_is_ok() {
    assert_eq!(parse("{}"), Ok(JsonObject {}));
    assert_eq!(parse("  {  }\n"), Ok(JsonObject {}));
}

#[test]
fn single_field_is_ok() {
    assert!(parse("{\"key\": \"value\"}").is_ok());
}

#[test]
fn two_fields_are_ok() {
    assert!(parse("{\"key\": \"value\", \"key2\": \"value\"}").is_ok());
}

#[test]
fn trailing_comma_is_invalid_object() {
    assert_eq!(parse("{\"key\": \"value\",}"), Err(ParserError::InvalidObject));
}

#[test]
fn unquoted_key_is_rejected() {
    let r = parse("{ \"key\": \"value\", key2: \"value\" }");
    assert!(matches!(r, Err(ParserError::Empty) | Err(ParserError::InvalidObject)));
}

#[test]
fn unterminated_string_is_rejected() {
    assert!(parse("{\"key\": \"value}").is_err());
    assert_eq!(parse("{\"key"), Err(ParserError::InvalidObject));
}

#[test]
fn parse_twice_gives_same_result() {
    let texts = ["{}", "", "{\"a\":\"b\",}", "{\"a\" \"b\"}", "{\"k\":\"v\"}"];
    for t in texts.iter() {
        assert_eq!(parse(t), parse(t));
    }
}

#[test]
fn unclosed_object_is_invalid_object() {
    assert_eq!(parse("{"), Err(ParserError::InvalidObject));
    assert_eq!(parse("{\"k\":\"v\""), Err(ParserError::InvalidObject));
}

#[test]
fn close_outside_object_is_invalid_object() {
    assert_eq!(parse("}"), Err(ParserError::InvalidObject));
}

#[test]
fn misplaced_string_is_invalid_string() {
    assert_eq!(parse("\"k\""), Err(ParserError::InvalidString));
    assert_eq!(parse("{\"k\" \"v\"}"), Err(ParserError::InvalidString));
}

#[test]
fn misplaced_colon_is_invalid_separator() {
    assert_eq!(parse("{:}"), Err(ParserError::InvalidKeyValueSeparator));
}

#[test]
fn misplaced_comma_is_invalid_field_separator() {
    assert_eq!(parse("{\"k\",}"), Err(ParserError::InvalidFieldSeparator));
    assert_eq!(parse(","), Err(ParserError::InvalidFieldSeparator));
}

#[test]
fn open_brace_accepted_in_any_state() {
    assert_eq!(parse("{{}"), Ok(JsonObject {}));
    assert_eq!(transition(ParserState::Key, &Token::OpenObject), Ok(ParserState::Object));
}

#[test]
fn text_after_complete_object_that_yields_no_token_is_ignored() {
    assert!(parse("{} x").is_ok());
    assert!(parse("{} \"abc").is_ok());
}

#[test]
fn garbage_first_is_empty() {
    assert_eq!(parse("x{}"), Err(ParserError::Empty));
}

#[test]
fn transition_table() {
    let s = || Token::String(String::from("k"));
    assert_eq!(transition(ParserState::Object, &Token::CloseObject), Ok(ParserState::Default));
    assert_eq!(transition(ParserState::Object, &s()), Ok(ParserState::Key));
    assert_eq!(transition(ParserState::ExpectingKey, &s()), Ok(ParserState::Key));
    assert_eq!(transition(ParserState::Value, &s()), Ok(ParserState::Object));
    assert_eq!(transition(ParserState::Key, &Token::KeyValueSeparator), Ok(ParserState::Value));
    assert_eq!(transition(ParserState::Object, &Token::FieldSeparator), Ok(ParserState::ExpectingKey));
    assert_eq!(transition(ParserState::ExpectingKey, &Token::CloseObject), Err(ParserError::InvalidObject));
    assert_eq!(transition(ParserState::Key, &s()), Err(ParserError::InvalidString));
    assert_eq!(transition(ParserState::Value, &Token::KeyValueSeparator), Err(ParserError::InvalidKeyValueSeparator));
    assert_eq!(transition(ParserState::Default, &Token::FieldSeparator), Err(ParserError::InvalidFieldSeparator));
}

#[test]
fn error_messages_are_distinct() {
    let all = [
        ParserError::Empty,
        ParserError::InvalidObject,
        ParserError::InvalidString,
        ParserError::InvalidKeyValueSeparator,
        ParserError::InvalidFieldSeparator,
    ];
    for (i, a) in all.iter().enumerate() {
        assert!(!a.message().is_empty());
        for b in all.iter().skip(i + 1) {
            assert_ne!(a.message(), b.message());
        }
    }
    assert_eq!(ParserError::InvalidFieldSeparator.message(), "JSON parse error: unexpected ','");
}

fn describe(t: &Token) -> String {
    match t {
        Token::OpenObject => String::from("{"),
        Token::CloseObject => String::from("}"),
        Token::String(s) => format!("\"{}\"", s),
        Token::KeyValueSeparator => String::from(":"),
        Token::FieldSeparator => String::from(","),
    }
}

#[test]
fn tokenizer_produces_tokens_in_order() {
    let mut t = Tokenizer::new(" { \"k y\" :\"v\" , } ");
    let mut seen: Vec<String> = Vec::new();
    while let Some(tok) = t.get_next() {
        seen.push(describe(&tok));
    }
    assert_eq!(seen, vec!["{", "\"k y\"", ":", "\"v\"", ",", "}"]);
    assert!(t.get_next().is_none());
}

#[test]
fn tokenizer_string_keeps_characters_without_escapes() {
    let mut t = Tokenizer::new("\"a\\\"b\"");
    match t.get_next() {
        Some(Token::String(s)) => assert_eq!(s, "a\\"),
        _ => panic!("expected a string token"),
    }
    let mut u = Tokenizer::new("\"h\u{e9}llo w\"");
    match u.get_next() {
        Some(Token::String(s)) => assert_eq!(s, "h\u{e9}llo w"),
        _ => panic!("expected a string token"),
    }
}

#[test]
fn tokenizer_stops_on_unknown_character_and_unterminated_string() {
    let mut t = Tokenizer::new("{ 1 }");
    assert!(matches!(t.get_next(), Some(Token::OpenObject)));
    assert!(t.get_next().is_none());
    assert!(matches!(t.get_next(), Some(Token::CloseObject)));
    let mut u = Tokenizer::new("\"abc");
    assert!(u.get_next().is_none());
    assert!(u.get_next().is_none());
}

#[test]
fn tokenizer_ends_on_finite_input() {
    let text = "{\"a\":\"b\",\"c\":\"d\"}";
    let mut t = Tokenizer::new(text);
    let mut n: usize = 0;
    while t.get_next().is_some() {
        n += 1;
        assert!(n <= text.chars().count());
    }
    assert_eq!(n, 9);
}
