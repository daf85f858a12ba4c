use vstd::prelude::*;

verus! {

/// The characters with the Unicode `White_Space` property.
pub open spec fn is_white_space(c: char) -> bool {
    let u = c as u32;
    ||| 0x09 <= u <= 0x0D
    ||| u == 0x20
    ||| u == 0x85
    ||| u == 0xA0
    ||| u == 0x1680
    ||| 0x2000 <= u <= 0x200A
    ||| u == 0x2028
    ||| u == 0x2029
    ||| u == 0x202F
    ||| u == 0x205F
    ||| u == 0x3000
}

/// Relies on `char::is_whitespace`: true exactly for the characters with the
/// Unicode `White_Space` property.
#[verifier::external_body]
fn is_whitespace(c: char) -> (r: bool)
    ensures
        r == is_white_space(c),
{
    c.is_whitespace()
}

/// Relies on `String::push`: appends one character at the end.
#[verifier::external_body]
fn push_char(s: &mut String, c: char)
    ensures
        final(s)@ == old(s)@.push(c),
{
    s.push(c)
}

/// One lexical unit of the input.
pub enum Token {
    OpenObject,
    CloseObject,
    /// The characters between a pair of double quotes, without escape
    /// processing.
    String(String),
    KeyValueSeparator,
    FieldSeparator,
}

/// The mathematical value of a [`Token`].
pub enum TokenModel {
    OpenObject,
    CloseObject,
    Str(Seq<char>),
    KeyValueSeparator,
    FieldSeparator,
}

impl View for Token {
    type V = TokenModel;

    open spec fn view(&self) -> TokenModel {
        match self {
            Token::OpenObject => TokenModel::OpenObject,
            Token::CloseObject => TokenModel::CloseObject,
            Token::String(s) => TokenModel::Str(s@),
            Token::KeyValueSeparator => TokenModel::KeyValueSeparator,
            Token::FieldSeparator => TokenModel::FieldSeparator,
        }
    }
}

/// The value of an optional token.
pub open spec fn token_option_view(t: Option<Token>) -> Option<TokenModel> {
    match t {
        Some(t) => Some(t@),
        None => None,
    }
}

/// The first position at or after `pos` that does not hold whitespace, or
/// `pos` itself once past the end of `s`.
pub open spec fn skip_white_space(s: Seq<char>, pos: int) -> int
    decreases s.len() - pos,
{
    if pos < s.len() && is_white_space(s[pos]) {
        skip_white_space(s, pos + 1)
    } else {
        pos
    }
}

/// The first position at or after `pos` that holds a double quote, or `pos`
/// itself once past the end of `s`.
pub open spec fn find_quote(s: Seq<char>, pos: int) -> int
    decreases s.len() - pos,
{
    if pos < s.len() && s[pos] != '"' {
        find_quote(s, pos + 1)
    } else {
        pos
    }
}

/// The string literal whose body starts at `start` (just after its opening
/// quote): its token and the position after its closing quote, or no token
/// and the end of the input when no closing quote follows.
pub open spec fn lex_string(s: Seq<char>, start: int) -> (Option<TokenModel>, int) {
    let q = find_quote(s, start);
    if q < s.len() {
        (Some(TokenModel::Str(s.subrange(start, q))), q + 1)
    } else {
        (None, q)
    }
}

/// One step of the tokenizer from cursor `pos`: the token produced, if any,
/// and the new cursor. Whitespace is skipped; an unrecognised character, an
/// unterminated string and the end of the input all give no token.
pub open spec fn lex_step(s: Seq<char>, pos: int) -> (Option<TokenModel>, int) {
    let p = skip_white_space(s, pos);
    if p >= s.len() {
        (None, p)
    } else {
        let c = s[p];
        if c == '{' {
            (Some(TokenModel::OpenObject), p + 1)
        } else if c == '}' {
            (Some(TokenModel::CloseObject), p + 1)
        } else if c == '"' {
            lex_string(s, p + 1)
        } else if c == ':' {
            (Some(TokenModel::KeyValueSeparator), p + 1)
        } else if c == ',' {
            (Some(TokenModel::FieldSeparator), p + 1)
        } else {
            (None, p + 1)
        }
    }
}

proof fn lemma_skip_white_space_bounds(s: Seq<char>, pos: int)
    ensures
        pos <= skip_white_space(s, pos),
        pos <= s.len() ==> skip_white_space(s, pos) <= s.len(),
    decreases s.len() - pos,
{
    if pos < s.len() && is_white_space(s[pos]) {
        lemma_skip_white_space_bounds(s, pos + 1);
    }
}

proof fn lemma_find_quote_bounds(s: Seq<char>, pos: int)
    ensures
        pos <= find_quote(s, pos),
        pos <= s.len() ==> find_quote(s, pos) <= s.len(),
        find_quote(s, pos) < s.len() ==> s[find_quote(s, pos)] == '"',
        forall|i: int| pos <= i < find_quote(s, pos) ==> s[i] != '"',
    decreases s.len() - pos,
{
    if pos < s.len() && s[pos] != '"' {
        lemma_find_quote_bounds(s, pos + 1);
    }
}

/// From a position where only whitespace remains, skipping whitespace
/// reaches the end of the input.
pub proof fn lemma_skip_white_space_to_end(s: Seq<char>, pos: int)
    requires
        0 <= pos <= s.len(),
        forall|i: int| pos <= i < s.len() ==> is_white_space(#[trigger] s[i]),
    ensures
        skip_white_space(s, pos) == s.len(),
    decreases s.len() - pos,
{
    if pos < s.len() {
        lemma_skip_white_space_to_end(s, pos + 1);
    }
}

/// The cursor never moves backwards and never passes the end of the input;
/// whenever a token is produced it moves strictly forward.
pub proof fn lemma_lex_step_advances(s: Seq<char>, pos: int)
    ensures
        pos <= lex_step(s, pos).1,
        pos <= s.len() ==> lex_step(s, pos).1 <= s.len(),
        lex_step(s, pos).0 is Some ==> pos < lex_step(s, pos).1 <= s.len(),
{
    lemma_skip_white_space_bounds(s, pos);
    let p = skip_white_space(s, pos);
    if p < s.len() && s[p] == '"' {
        lemma_find_quote_bounds(s, p + 1);
    }
}

/// The number of tokens produced from cursor `pos` before the stream ends.
pub open spec fn token_count(s: Seq<char>, pos: int) -> nat
    decreases s.len() - pos via lemma_token_count_decreases
{
    let (t, next) = lex_step(s, pos);
    if t is Some {
        1 + token_count(s, next)
    } else {
        0
    }
}

#[via_fn]
proof fn lemma_token_count_decreases(s: Seq<char>, pos: int) {
    lemma_lex_step_advances(s, pos);
}

/// Finite input yields finitely many tokens: at most one per remaining
/// character.
pub proof fn lemma_token_count_bounded(s: Seq<char>, pos: int)
    requires
        0 <= pos <= s.len(),
    ensures
        token_count(s, pos) <= s.len() - pos,
    decreases s.len() - pos,
{
    lemma_lex_step_advances(s, pos);
    let (t, next) = lex_step(s, pos);
    if t is Some {
        lemma_token_count_bounded(s, next);
    }
}

/// A pull-based lexer over a text, with a cursor counted in characters.
pub struct Tokenizer {
    chars: Vec<char>,
    position: usize,
}

impl Tokenizer {
    /// The text being tokenized.
    pub closed spec fn text(&self) -> Seq<char> {
        self.chars@
    }

    /// The cursor: the number of characters consumed so far.
    pub closed spec fn position(&self) -> int {
        self.position as int
    }

    /// A tokenizer over `json_string`, with the cursor at its start.
    pub fn new(json_string: &str) -> (r: Self)
        ensures
            r.text() == json_string@,
            r.position() == 0,
    {
        let mut chars: Vec<char> = Vec::new();
        for c in it: json_string.chars()
            invariant
                it.seq() == json_string@,
                chars@ == it.seq().subrange(0, it.index()),
        {
            chars.push(c);
        }
        Tokenizer { chars, position: 0 }
    }

    /// Produces the next token and moves the cursor past it, or returns
    /// `None` when no token can be formed: at the end of the input, at an
    /// unrecognised character and at an unterminated string alike.
    pub fn get_next(&mut self) -> (r: Option<Token>)
        ensures
            final(self).text() == old(self).text(),
            token_option_view(r) == lex_step(old(self).text(), old(self).position()).0,
            final(self).position() == lex_step(old(self).text(), old(self).position()).1,
            old(self).position() <= final(self).position(),
            r is Some ==> old(self).position() < final(self).position() <= final(self).text().len(),
    {
        proof {
            lemma_lex_step_advances(self.chars@, self.position as int);
        }
        let n = self.chars.len();
        while self.position < n
            invariant
                n == self.chars.len(),
                self.chars@ == old(self).chars@,
                old(self).position <= self.position,
                skip_white_space(self.chars@, old(self).position as int) == skip_white_space(
                    self.chars@,
                    self.position as int,
                ),
            decreases n - self.position,
        {
            let c = self.chars[self.position];
            self.position = self.position + 1;
            if !is_whitespace(c) {
                if c == '{' {
                    return Some(Token::OpenObject);
                } else if c == '}' {
                    return Some(Token::CloseObject);
                } else if c == '"' {
                    proof {
                        lemma_find_quote_bounds(self.chars@, self.position as int);
                    }
                    return self.get_string();
                } else if c == ':' {
                    return Some(Token::KeyValueSeparator);
                } else if c == ',' {
                    return Some(Token::FieldSeparator);
                } else {
                    return None;
                }
            }
        }
        None
    }

    /// Scans a string literal whose opening quote was just consumed.
    fn get_string(&mut self) -> (r: Option<Token>)
        requires
            old(self).position() <= old(self).text().len(),
        ensures
            final(self).text() == old(self).text(),
            token_option_view(r) == lex_string(old(self).text(), old(self).position()).0,
            final(self).position() == lex_string(old(self).text(), old(self).position()).1,
    {
        proof {
            lemma_find_quote_bounds(self.chars@, self.position as int);
        }
        let start = self.position;
        let n = self.chars.len();
        let mut token_string = String::new();
        assert(token_string@ =~= self.chars@.subrange(start as int, start as int));
        while self.position < n
            invariant
                n == self.chars.len(),
                self.chars@ == old(self).chars@,
                start == old(self).position,
                start <= self.position <= n,
                token_string@ == self.chars@.subrange(start as int, self.position as int),
                find_quote(self.chars@, start as int) == find_quote(
                    self.chars@,
                    self.position as int,
                ),
            decreases n - self.position,
        {
            let c = self.chars[self.position];
            self.position = self.position + 1;
            if c == '"' {
                return Some(Token::String(token_string));
            }
            push_char(&mut token_string, c);
            assert(token_string@ == self.chars@.subrange(start as int, self.position as int));
        }
        None
    }
}

} // verus!
