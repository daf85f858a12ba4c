use vstd::prelude::*;

use crate::json_object::Object as JsonObject;
use crate::json_tokenizer::{
    find_quote, is_white_space, lemma_lex_step_advances, lemma_skip_white_space_to_end, lex_step,
    skip_white_space, token_option_view, Token, TokenModel, Tokenizer,
};

verus! {

/// Why a text is not a well-formed object.
///
/// The tokenizer reports an unrecognised character or an unterminated string
/// the same way as the end of the input, so such text surfaces as one of
/// these grammar errors (or, after a complete object, as success), depending
/// on the state the validator had reached.
#[derive(Debug, Clone, Copy, PartialEq, Eq, Structural)]
pub enum ParserError {
    /// The text produced no token at all.
    Empty,
    /// A closing brace outside an object, or an object that was never closed.
    InvalidObject,
    /// A string literal where no key or value is expected.
    InvalidString,
    /// A `:` that does not follow a key.
    InvalidKeyValueSeparator,
    /// A `,` that does not follow a complete field.
    InvalidFieldSeparator,
}

/// The description that [`ParserError::message`] gives.
pub open spec fn error_message(e: ParserError) -> Seq<char> {
    match e {
        ParserError::Empty => "JSON parse error: no object found"@,
        ParserError::InvalidObject => "JSON parse error: unbalanced or misplaced brace"@,
        ParserError::InvalidString => "JSON parse error: unexpected string"@,
        ParserError::InvalidKeyValueSeparator => "JSON parse error: unexpected ':'"@,
        ParserError::InvalidFieldSeparator => "JSON parse error: unexpected ','"@,
    }
}

impl ParserError {
    /// A human-readable description of the error.
    pub fn message(&self) -> (r: &'static str)
        ensures
            r@ == error_message(*self),
    {
        match self {
            ParserError::Empty => "JSON parse error: no object found",
            ParserError::InvalidObject => "JSON parse error: unbalanced or misplaced brace",
            ParserError::InvalidString => "JSON parse error: unexpected string",
            ParserError::InvalidKeyValueSeparator => "JSON parse error: unexpected ':'",
            ParserError::InvalidFieldSeparator => "JSON parse error: unexpected ','",
        }
    }
}

/// What the validator expects next.
#[derive(Debug, Clone, Copy, PartialEq, Eq, Structural)]
pub enum ParserState {
    /// Outside any object: the initial state and the only accepting one.
    Default,
    /// Inside an object, after `{` or after a complete field.
    Object,
    /// After a key.
    Key,
    /// After a key and its `:`.
    Value,
    /// After a `,`.
    ExpectingKey,
}

/// The grammar: the state after `t` in state `st`, or the error that `t`
/// raises there.
pub open spec fn transition_spec(st: ParserState, t: TokenModel) -> Result<ParserState, ParserError> {
    match t {
        TokenModel::OpenObject => Ok(ParserState::Object),
        TokenModel::CloseObject => if st == ParserState::Object {
            Ok(ParserState::Default)
        } else {
            Err(ParserError::InvalidObject)
        },
        TokenModel::Str(_) => match st {
            ParserState::Object => Ok(ParserState::Key),
            ParserState::ExpectingKey => Ok(ParserState::Key),
            ParserState::Value => Ok(ParserState::Object),
            _ => Err(ParserError::InvalidString),
        },
        TokenModel::KeyValueSeparator => if st == ParserState::Key {
            Ok(ParserState::Value)
        } else {
            Err(ParserError::InvalidKeyValueSeparator)
        },
        TokenModel::FieldSeparator => if st == ParserState::Object {
            Ok(ParserState::ExpectingKey)
        } else {
            Err(ParserError::InvalidFieldSeparator)
        },
    }
}

/// Runs the validator from state `st` on the tokens of `s` from cursor
/// `pos` on, until the stream ends or a token is rejected.
pub open spec fn validate_from(s: Seq<char>, pos: int, st: ParserState) -> Result<(), ParserError>
    decreases s.len() - pos via lemma_validate_from_decreases
{
    let (t, next) = lex_step(s, pos);
    match t {
        None => if st == ParserState::Default {
            Ok(())
        } else {
            Err(ParserError::InvalidObject)
        },
        Some(tok) => match transition_spec(st, tok) {
            Ok(st2) => validate_from(s, next, st2),
            Err(e) => Err(e),
        },
    }
}

#[via_fn]
proof fn lemma_validate_from_decreases(s: Seq<char>, pos: int, st: ParserState) {
    lemma_lex_step_advances(s, pos);
}

/// The outcome of parsing `s` with a parser in state `st`: `Empty` when the
/// text yields no token, else the run of the validator over all its tokens.
pub open spec fn parse_from(st: ParserState, s: Seq<char>) -> Result<(), ParserError> {
    if lex_step(s, 0).0 is None {
        Err(ParserError::Empty)
    } else {
        validate_from(s, 0, st)
    }
}

/// The outcome of parsing `s` with a fresh parser.
pub open spec fn validate(s: Seq<char>) -> Result<(), ParserError> {
    parse_from(ParserState::Default, s)
}

/// The outcome of a call of [`Parser::parse`], with the object dropped.
pub open spec fn outcome(r: Result<JsonObject, ParserError>) -> Result<(), ParserError> {
    match r {
        Ok(_) => Ok(()),
        Err(e) => Err(e),
    }
}

/// Text made only of whitespace, the empty text included, is rejected as
/// `Empty`.
pub proof fn lemma_white_space_only_is_empty(s: Seq<char>)
    requires
        forall|i: int| 0 <= i < s.len() ==> is_white_space(#[trigger] s[i]),
    ensures
        validate(s) == Err::<(), ParserError>(ParserError::Empty),
{
    lemma_skip_white_space_to_end(s, 0);
}

/// Parsing is a function of the text alone: two parses of the same text
/// with fresh parsers give the same outcome.
pub proof fn lemma_parse_repeatable(
    s: Seq<char>,
    first: Result<(), ParserError>,
    second: Result<(), ParserError>,
)
    requires
        first == validate(s),
        second == validate(s),
    ensures
        first == second,
{
}

/// A string literal that the tokenizer finds unterminated while the
/// validator is inside an object (in any state but `Default`) makes the run
/// fail.
pub proof fn lemma_unterminated_string_in_object_rejected(s: Seq<char>, pos: int, st: ParserState)
    requires
        st != ParserState::Default,
        skip_white_space(s, pos) < s.len(),
        s[skip_white_space(s, pos)] == '"',
        find_quote(s, skip_white_space(s, pos) + 1) >= s.len(),
    ensures
        validate_from(s, pos, st) is Err,
{
}

/// Applies the grammar to one token.
pub fn transition(state: ParserState, token: &Token) -> (r: Result<ParserState, ParserError>)
    ensures
        r == transition_spec(state, token@),
{
    match token {
        Token::OpenObject => Ok(ParserState::Object),
        Token::CloseObject => match state {
            ParserState::Object => Ok(ParserState::Default),
            _ => Err(ParserError::InvalidObject),
        },
        Token::String(_) => match state {
            ParserState::Object => Ok(ParserState::Key),
            ParserState::ExpectingKey => Ok(ParserState::Key),
            ParserState::Value => Ok(ParserState::Object),
            _ => Err(ParserError::InvalidString),
        },
        Token::KeyValueSeparator => match state {
            ParserState::Key => Ok(ParserState::Value),
            _ => Err(ParserError::InvalidKeyValueSeparator),
        },
        Token::FieldSeparator => match state {
            ParserState::Object => Ok(ParserState::ExpectingKey),
            _ => Err(ParserError::InvalidFieldSeparator),
        },
    }
}

/// A validator for object text, holding its grammar state.
pub struct Parser {
    state: ParserState,
}

impl View for Parser {
    type V = ParserState;

    closed spec fn view(&self) -> ParserState {
        self.state
    }
}

impl Parser {
    /// A parser in the initial state.
    pub fn new() -> (r: Self)
        ensures
            r@ == ParserState::Default,
    {
        Parser { state: ParserState::Default }
    }

    /// Checks that `json_string` is a well-formed object, stopping at the
    /// first token the grammar rejects.
    pub fn parse(self, json_string: &str) -> (r: Result<JsonObject, ParserError>)
        ensures
            outcome(r) == parse_from(self@, json_string@),
    {
        let ghost s = json_string@;
        let mut state = self.state;
        let mut tokenizer: Tokenizer = Tokenizer::new(json_string);
        let mut next_token = tokenizer.get_next();
        proof {
            lemma_lex_step_advances(s, 0);
        }
        if next_token.is_none() {
            return Err(ParserError::Empty);
        }
        let ghost mut pos: int = 0;
        while next_token.is_some()
            invariant
                s == json_string@,
                tokenizer.text() == s,
                0 <= pos <= s.len(),
                token_option_view(next_token) == lex_step(s, pos).0,
                tokenizer.position() == lex_step(s, pos).1,
                parse_from(self@, s) == validate_from(s, pos, state),
            decreases s.len() - pos,
        {
            proof {
                lemma_lex_step_advances(s, pos);
            }
            if let Some(token) = next_token {
                match transition(state, &token) {
                    Ok(st) => {
                        state = st;
                    },
                    Err(e) => {
                        return Err(e);
                    },
                }
            }
            proof {
                pos = tokenizer.position();
            }
            next_token = tokenizer.get_next();
        }
        match state {
            ParserState::Default => Ok(JsonObject {  }),
            _ => Err(ParserError::InvalidObject),
        }
    }
}

} // verus!
