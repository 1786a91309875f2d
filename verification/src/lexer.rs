//! The lexer: source text to tokens.
//!
//! `tokenize_spec` defines, on the characters of the source, which tokens a
//! text has or where lexing fails; `tokenize` computes exactly that.
use crate::ast::{Value, ValueView};
use crate::helpers::{
    char_is_alphabetic, char_is_ascii, characters, is_alphabetic, is_ascii_char,
    is_string_literal, spells, text_of, LiteralHelpers,
};
use crate::number::{decimal_bits, is_decimal_digit, parse_decimal, MAX_DIGITS};
use vstd::prelude::*;

verus! {

/// The tag of a token.
#[derive(Debug, Clone, Copy, PartialEq, Eq, Structural)]
pub enum Type {
    Identifier,
    Let,
    Const,
    Fn,
    For,
    In,
    If,
    Else,
    While,
    /// `+`, `-`, `*`, `/` or `%`.
    Operator,
    /// `..`
    Interval,
    /// `..=`
    InclusiveInterval,
    GreaterThan,
    LessThan,
    GreaterEqual,
    LessEqual,
    Not,
    NotEqual,
    OpenParen,
    CloseParen,
    Comma,
    Colon,
    OpenBrace,
    CloseBrace,
    OpenBracket,
    CloseBracket,
    Semi,
    Dot,
    Equals,
    Number,
    String,
    /// The end marker that closes every token sequence.
    EOF,
}

/// A token: a tag and a payload.
#[derive(Debug, PartialEq, Eq)]
pub struct Token {
    pub kind: Type,
    pub value: Value,
}

/// Model of a `Token`.
pub struct TokenView {
    pub kind: Type,
    pub value: ValueView,
}

impl Clone for Token {
    fn clone(&self) -> (r: Token)
        ensures
            r@ == self@,
    {
        Token { kind: self.kind, value: self.value.duplicate() }
    }
}

impl View for Token {
    type V = TokenView;

    open spec fn view(&self) -> TokenView {
        TokenView { kind: self.kind, value: self.value.model() }
    }
}

/// The models of a list of tokens.
pub open spec fn tokens_view(tokens: Seq<Token>) -> Seq<TokenView> {
    Seq::new(tokens.len(), |i: int| tokens[i]@)
}

/// Lexing failed at `position` (an index into the characters of the source),
/// on `character`.
#[derive(Debug, Clone, Copy, PartialEq, Eq, Structural)]
pub struct LexError {
    pub position: usize,
    pub character: char,
}

/// Whether `c` ends a word or a number: an operator or punctuation character,
/// or a line feed.
pub open spec fn is_operator(c: char) -> bool {
    c == '+' || c == '-' || c == '*' || c == '/' || c == '%' || c == ':' || c == '=' || c == '('
        || c == ')' || c == '{' || c == '}' || c == ';' || c == ',' || c == '[' || c == ']' || c
        == '.' || c == '>' || c == '<' || c == '!' || c == '\n'
}

/// Whether the character at `at` exists and is `c`.
pub open spec fn has_char(chars: Seq<char>, at: int, c: char) -> bool {
    0 <= at < chars.len() && chars[at] == c
}

/// The number of decimal digits that start at `from`.
pub open spec fn digits_len(chars: Seq<char>, from: int) -> nat
    decreases chars.len() - from,
{
    if 0 <= from < chars.len() && is_decimal_digit(chars[from]) {
        1 + digits_len(chars, from + 1)
    } else {
        0
    }
}

/// Whether `c` can continue a string literal.
pub open spec fn continues_string(c: char) -> bool {
    c != ' ' && c != '\\' && is_ascii_char(c)
}

/// The number of characters that a string literal takes from `from`, the
/// position after its opening quote: up to and including the next double
/// quote, or up to a space, a backslash, a non-ASCII character or the end.
pub open spec fn string_len(chars: Seq<char>, from: int) -> nat
    decreases chars.len() - from,
{
    if 0 <= from < chars.len() && continues_string(chars[from]) {
        if chars[from] == '"' {
            1
        } else {
            1 + string_len(chars, from + 1)
        }
    } else {
        0
    }
}

/// Whether `c` can continue a word.
pub open spec fn continues_word(c: char) -> bool {
    c != ' ' && !is_operator(c) && is_ascii_char(c)
}

/// The number of characters that continue a word from `from`.
pub open spec fn word_len(chars: Seq<char>, from: int) -> nat
    decreases chars.len() - from,
{
    if 0 <= from < chars.len() && continues_word(chars[from]) {
        1 + word_len(chars, from + 1)
    } else {
        0
    }
}

/// The tag of a word: that of the keyword it spells, else `Identifier`.
pub open spec fn word_kind(word: Seq<char>) -> Type {
    if word == "let"@ {
        Type::Let
    } else if word == "const"@ {
        Type::Const
    } else if word == "for"@ {
        Type::For
    } else if word == "in"@ {
        Type::In
    } else if word == "if"@ {
        Type::If
    } else if word == "else"@ {
        Type::Else
    } else if word == "fn"@ {
        Type::Fn
    } else if word == "while"@ {
        Type::While
    } else {
        Type::Identifier
    }
}

/// A token whose payload is text.
pub open spec fn text_token(kind: Type, text: Seq<char>) -> TokenView {
    TokenView { kind, value: ValueView::String(text) }
}

/// The end marker.
pub open spec fn end_marker() -> TokenView {
    text_token(Type::EOF, "\0"@)
}

/// The operator or punctuation token that starts at `pos`, if one does.
pub open spec fn symbol_at(chars: Seq<char>, pos: int) -> Option<TokenView>
    recommends
        0 <= pos < chars.len(),
{
    let c = chars[pos];
    if c == '=' {
        Some(text_token(Type::Equals, "="@))
    } else if c == '+' {
        Some(text_token(Type::Operator, "+"@))
    } else if c == '-' {
        Some(text_token(Type::Operator, "-"@))
    } else if c == '*' {
        Some(text_token(Type::Operator, "*"@))
    } else if c == '/' {
        Some(text_token(Type::Operator, "/"@))
    } else if c == '%' {
        Some(text_token(Type::Operator, "%"@))
    } else if c == ',' {
        Some(text_token(Type::Comma, ","@))
    } else if c == ':' {
        Some(text_token(Type::Colon, ":"@))
    } else if c == ';' {
        Some(text_token(Type::Semi, ";"@))
    } else if c == '(' {
        Some(text_token(Type::OpenParen, "("@))
    } else if c == ')' {
        Some(text_token(Type::CloseParen, ")"@))
    } else if c == '{' {
        Some(text_token(Type::OpenBrace, "{"@))
    } else if c == '}' {
        Some(text_token(Type::CloseBrace, "}"@))
    } else if c == '[' {
        Some(text_token(Type::OpenBracket, "["@))
    } else if c == ']' {
        Some(text_token(Type::CloseBracket, "]"@))
    } else if c == '!' {
        if has_char(chars, pos + 1, '=') {
            Some(text_token(Type::NotEqual, "!="@))
        } else {
            Some(text_token(Type::Not, "!"@))
        }
    } else if c == '>' {
        if has_char(chars, pos + 1, '=') {
            Some(text_token(Type::GreaterEqual, ">="@))
        } else {
            Some(text_token(Type::GreaterThan, ">"@))
        }
    } else if c == '<' {
        if has_char(chars, pos + 1, '=') {
            Some(text_token(Type::LessEqual, "<="@))
        } else {
            Some(text_token(Type::LessThan, "<"@))
        }
    } else if c == '.' {
        if has_char(chars, pos + 1, '.') {
            if has_char(chars, pos + 2, '=') {
                Some(text_token(Type::InclusiveInterval, "..="@))
            } else {
                Some(text_token(Type::Interval, ".."@))
            }
        } else {
            Some(text_token(Type::Dot, "."@))
        }
    } else {
        None
    }
}

/// How many characters the symbol at `pos` takes beyond its first.
pub open spec fn symbol_extra(chars: Seq<char>, pos: int) -> nat
    recommends
        0 <= pos < chars.len(),
{
    let c = chars[pos];
    if (c == '!' || c == '>' || c == '<') && has_char(chars, pos + 1, '=') {
        1
    } else if c == '.' && has_char(chars, pos + 1, '.') {
        if has_char(chars, pos + 2, '=') {
            2
        } else {
            1
        }
    } else {
        0
    }
}

/// What the lexer finds at one position.
pub enum Scan {
    /// Blank: nothing is emitted.
    Skip,
    /// A token.
    Emit(TokenView),
    /// No token can be read here.
    Fail(LexError),
}

/// Whether `c` may follow a number: a space or an operator character.
pub open spec fn ends_number(c: char) -> bool {
    c == ' ' || is_operator(c)
}

/// What the lexer finds at `pos` when a number starts there: the maximal run
/// of digits, read as a double. The run must end the text or be followed by a
/// space or an operator character, else lexing fails at the character that
/// follows it; a run longer than `MAX_DIGITS` fails at its first digit.
pub open spec fn scan_number(chars: Seq<char>, pos: int) -> Scan
    recommends
        0 <= pos < chars.len(),
{
    let end = pos + 1 + digits_len(chars, pos + 1);
    if end < chars.len() && !ends_number(chars[end]) {
        Scan::Fail(LexError { position: end as usize, character: chars[end] })
    } else if end - pos > MAX_DIGITS {
        Scan::Fail(LexError { position: pos as usize, character: chars[pos] })
    } else {
        Scan::Emit(
            TokenView {
                kind: Type::Number,
                value: ValueView::Number(decimal_bits(chars.subrange(pos, end))),
            },
        )
    }
}

/// What the lexer finds at `pos` when a double quote stands there: the text
/// up to and including the next double quote, if that text is a string
/// literal. A literal that a space, a backslash, a non-ASCII character or the
/// end of the text cuts short fails at its last character; a double quote
/// that nothing can follow is a string literal by itself.
pub open spec fn scan_string(chars: Seq<char>, pos: int) -> Scan
    recommends
        0 <= pos < chars.len(),
{
    let end = pos + 1 + string_len(chars, pos + 1);
    let text = chars.subrange(pos, end);
    if is_string_literal(text) {
        Scan::Emit(text_token(Type::String, text))
    } else {
        Scan::Fail(LexError { position: (end - 1) as usize, character: chars[end - 1] })
    }
}

/// What the lexer finds at `pos` when a word starts there: the maximal run of
/// word characters, as a keyword if it spells one, else as an identifier.
pub open spec fn scan_word(chars: Seq<char>, pos: int) -> Scan
    recommends
        0 <= pos < chars.len(),
{
    let word = chars.subrange(pos, pos + 1 + word_len(chars, pos + 1));
    Scan::Emit(text_token(word_kind(word), word))
}

/// What the lexer finds at `pos`: nothing at a space or a line feed; else an
/// operator or punctuation token, a number, a string or a word, whichever
/// the character starts; a character that starts none of these is an error.
pub open spec fn scan(chars: Seq<char>, pos: int) -> Scan
    recommends
        0 <= pos < chars.len(),
{
    let c = chars[pos];
    if c == ' ' || c == '\n' {
        Scan::Skip
    } else if symbol_at(chars, pos) is Some {
        Scan::Emit(symbol_at(chars, pos)->0)
    } else if is_decimal_digit(c) {
        scan_number(chars, pos)
    } else if c == '"' {
        scan_string(chars, pos)
    } else if is_alphabetic(c) {
        scan_word(chars, pos)
    } else {
        Scan::Fail(LexError { position: pos as usize, character: c })
    }
}

/// How many characters the lexer takes at `pos` beyond the first.
pub open spec fn scan_extra(chars: Seq<char>, pos: int) -> nat
    recommends
        0 <= pos < chars.len(),
{
    let c = chars[pos];
    if c == ' ' || c == '\n' {
        0
    } else if symbol_at(chars, pos) is Some {
        symbol_extra(chars, pos)
    } else if is_decimal_digit(c) {
        digits_len(chars, pos + 1)
    } else if c == '"' {
        string_len(chars, pos + 1)
    } else if is_alphabetic(c) {
        word_len(chars, pos + 1)
    } else {
        0
    }
}

/// The tokens of `chars` from `pos` on, after the tokens `before`.
pub open spec fn lex(chars: Seq<char>, pos: int, before: Seq<TokenView>) -> Result<
    Seq<TokenView>,
    LexError,
>
    decreases
            (if pos < chars.len() {
                chars.len() - pos
            } else {
                0
            }),
{
    if pos < 0 || pos >= chars.len() {
        Ok(before.push(end_marker()))
    } else {
        match scan(chars, pos) {
            Scan::Fail(e) => Err(e),
            Scan::Skip => lex(chars, pos + 1 + scan_extra(chars, pos), before),
            Scan::Emit(t) => lex(chars, pos + 1 + scan_extra(chars, pos), before.push(t)),
        }
    }
}

/// The tokens of a source text, closed by the end marker, or the first
/// position at which no token can be read.
pub open spec fn tokenize_spec(chars: Seq<char>) -> Result<Seq<TokenView>, LexError> {
    lex(chars, 0, Seq::empty())
}

/// Appending a token appends its model.
pub proof fn lemma_tokens_view_push(tokens: Seq<Token>, token: Token)
    ensures
        tokens_view(tokens.push(token)) == tokens_view(tokens).push(token@),
{
    assert(tokens_view(tokens.push(token)) =~= tokens_view(tokens).push(token@));
}

/// Tells whether `c` is a decimal digit.
pub fn char_is_digit(c: char) -> (r: bool)
    ensures
        r == is_decimal_digit(c),
{
    '0' <= c && c <= '9'
}

/// Tells whether `c` is an operator or punctuation character, or a line feed.
pub fn char_is_operator(c: char) -> (r: bool)
    ensures
        r == is_operator(c),
{
    c == '+' || c == '-' || c == '*' || c == '/' || c == '%' || c == ':' || c == '=' || c == '('
        || c == ')' || c == '{' || c == '}' || c == ';' || c == ',' || c == '[' || c == ']' || c
        == '.' || c == '>' || c == '<' || c == '!' || c == '\n'
}

/// Tells whether the character at `at` exists and is `c`.
fn char_at_is(chars: &Vec<char>, at: usize, c: char) -> (r: bool)
    ensures
        r == has_char(chars@, at as int, c),
{
    at < chars.len() && chars[at] == c
}

/// The position after the decimal digits that start at `from`.
fn skip_digits(chars: &Vec<char>, from: usize) -> (end: usize)
    requires
        from <= chars.len(),
    ensures
        end == from + digits_len(chars@, from as int),
        end <= chars.len(),
        forall|i: int| from <= i < end ==> is_decimal_digit(#[trigger] chars@[i]),
{
    let mut i: usize = from;
    while i < chars.len() && char_is_digit(chars[i])
        invariant
            from <= i <= chars.len(),
            digits_len(chars@, from as int) == (i - from) + digits_len(chars@, i as int),
            forall|j: int| from <= j < i ==> is_decimal_digit(#[trigger] chars@[j]),
        decreases chars.len() - i,
    {
        i += 1;
    }
    i
}

/// The position after the string literal whose opening quote stands before `from`.
fn skip_string(chars: &Vec<char>, from: usize) -> (end: usize)
    requires
        from <= chars.len(),
    ensures
        end == from + string_len(chars@, from as int),
        end <= chars.len(),
{
    let mut i: usize = from;
    while i < chars.len()
        invariant
            from <= i <= chars.len(),
            string_len(chars@, from as int) == (i - from) + string_len(chars@, i as int),
        decreases chars.len() - i,
    {
        let c = chars[i];
        if c == ' ' || c == '\\' || !char_is_ascii(c) {
            return i;
        }
        if c == '"' {
            return i + 1;
        }
        i += 1;
    }
    i
}

/// The position after the word characters that start at `from`.
fn skip_word(chars: &Vec<char>, from: usize) -> (end: usize)
    requires
        from <= chars.len(),
    ensures
        end == from + word_len(chars@, from as int),
        end <= chars.len(),
{
    let mut i: usize = from;
    while i < chars.len()
        invariant
            from <= i <= chars.len(),
            word_len(chars@, from as int) == (i - from) + word_len(chars@, i as int),
        decreases chars.len() - i,
    {
        let c = chars[i];
        if c == ' ' || char_is_operator(c) || !char_is_ascii(c) {
            return i;
        }
        i += 1;
    }
    i
}

/// The tag of `word`.
fn classify(word: &String) -> (kind: Type)
    ensures
        kind == word_kind(word@),
{
    if spells(word, "let") {
        Type::Let
    } else if spells(word, "const") {
        Type::Const
    } else if spells(word, "for") {
        Type::For
    } else if spells(word, "in") {
        Type::In
    } else if spells(word, "if") {
        Type::If
    } else if spells(word, "else") {
        Type::Else
    } else if spells(word, "fn") {
        Type::Fn
    } else if spells(word, "while") {
        Type::While
    } else {
        Type::Identifier
    }
}

/// A token whose payload is `text`.
fn make_text_token(kind: Type, text: &str) -> (token: Token)
    ensures
        token@ == text_token(kind, text@),
{
    proof {
        reveal_with_fuel(Value::model, 1);
    }
    Token { kind, value: Value::String(text.to_owned()) }
}

/// The end marker.
pub fn end_marker_token() -> (token: Token)
    ensures
        token@ == end_marker(),
{
    make_text_token(Type::EOF, "\0")
}

/// The operator or punctuation token at `pos`, if one starts there, and the
/// position after it.
fn read_symbol(chars: &Vec<char>, pos: usize) -> (r: Option<(Token, usize)>)
    requires
        pos < chars.len(),
    ensures
        match r {
            Some((token, next)) => symbol_at(chars@, pos as int) == Some(token@) && next == pos + 1
                + symbol_extra(chars@, pos as int) && next <= chars.len(),
            None => symbol_at(chars@, pos as int) is None,
        },
{
    let c = chars[pos];
    if c == '=' {
        Some((make_text_token(Type::Equals, "="), pos + 1))
    } else if c == '+' {
        Some((make_text_token(Type::Operator, "+"), pos + 1))
    } else if c == '-' {
        Some((make_text_token(Type::Operator, "-"), pos + 1))
    } else if c == '*' {
        Some((make_text_token(Type::Operator, "*"), pos + 1))
    } else if c == '/' {
        Some((make_text_token(Type::Operator, "/"), pos + 1))
    } else if c == '%' {
        Some((make_text_token(Type::Operator, "%"), pos + 1))
    } else if c == ',' {
        Some((make_text_token(Type::Comma, ","), pos + 1))
    } else if c == ':' {
        Some((make_text_token(Type::Colon, ":"), pos + 1))
    } else if c == ';' {
        Some((make_text_token(Type::Semi, ";"), pos + 1))
    } else if c == '(' {
        Some((make_text_token(Type::OpenParen, "("), pos + 1))
    } else if c == ')' {
        Some((make_text_token(Type::CloseParen, ")"), pos + 1))
    } else if c == '{' {
        Some((make_text_token(Type::OpenBrace, "{"), pos + 1))
    } else if c == '}' {
        Some((make_text_token(Type::CloseBrace, "}"), pos + 1))
    } else if c == '[' {
        Some((make_text_token(Type::OpenBracket, "["), pos + 1))
    } else if c == ']' {
        Some((make_text_token(Type::CloseBracket, "]"), pos + 1))
    } else if c == '!' {
        if char_at_is(chars, pos + 1, '=') {
            Some((make_text_token(Type::NotEqual, "!="), pos + 2))
        } else {
            Some((make_text_token(Type::Not, "!"), pos + 1))
        }
    } else if c == '>' {
        if char_at_is(chars, pos + 1, '=') {
            Some((make_text_token(Type::GreaterEqual, ">="), pos + 2))
        } else {
            Some((make_text_token(Type::GreaterThan, ">"), pos + 1))
        }
    } else if c == '<' {
        if char_at_is(chars, pos + 1, '=') {
            Some((make_text_token(Type::LessEqual, "<="), pos + 2))
        } else {
            Some((make_text_token(Type::LessThan, "<"), pos + 1))
        }
    } else if c == '.' {
        if char_at_is(chars, pos + 1, '.') {
            if pos + 2 < chars.len() && chars[pos + 2] == '=' {
                Some((make_text_token(Type::InclusiveInterval, "..="), pos + 3))
            } else {
                Some((make_text_token(Type::Interval, ".."), pos + 2))
            }
        } else {
            Some((make_text_token(Type::Dot, "."), pos + 1))
        }
    } else {
        None
    }
}

/// Reads the number that starts at `pos`.
fn read_number(chars: &Vec<char>, pos: usize) -> (r: Result<(Token, usize), LexError>)
    requires
        pos < chars.len(),
        is_decimal_digit(chars@[pos as int]),
    ensures
        match r {
            Ok((token, next)) => scan_number(chars@, pos as int) == Scan::Emit(token@) && next
                == pos + 1 + digits_len(chars@, pos + 1) && next <= chars.len(),
            Err(e) => scan_number(chars@, pos as int) == Scan::Fail(e),
        },
{
    proof {
        reveal_with_fuel(Value::model, 1);
    }
    let end = skip_digits(chars, pos + 1);
    if end < chars.len() {
        let c = chars[end];
        if !(c == ' ' || char_is_operator(c)) {
            return Err(LexError { position: end, character: c });
        }
    }
    if end - pos > MAX_DIGITS {
        return Err(LexError { position: pos, character: chars[pos] });
    }
    let digits = text_of(chars, pos, end);
    match parse_decimal(digits.as_str()) {
        Some(bits) => Ok((Token { kind: Type::Number, value: Value::Number(bits) }, end)),
        None => Err(LexError { position: pos, character: chars[pos] }),
    }
}

/// Reads the string literal whose opening quote stands at `pos`.
fn read_string(chars: &Vec<char>, pos: usize) -> (r: Result<(Token, usize), LexError>)
    requires
        pos < chars.len(),
    ensures
        match r {
            Ok((token, next)) => scan_string(chars@, pos as int) == Scan::Emit(token@) && next
                == pos + 1 + string_len(chars@, pos + 1) && next <= chars.len(),
            Err(e) => scan_string(chars@, pos as int) == Scan::Fail(e),
        },
{
    proof {
        reveal_with_fuel(Value::model, 1);
    }
    let end = skip_string(chars, pos + 1);
    let text = text_of(chars, pos, end);
    if text.is_string_literal() {
        Ok((Token { kind: Type::String, value: Value::String(text) }, end))
    } else {
        Err(LexError { position: end - 1, character: chars[end - 1] })
    }
}

/// Reads the word that starts at `pos`.
fn read_word(chars: &Vec<char>, pos: usize) -> (r: (Token, usize))
    requires
        pos < chars.len(),
    ensures
        scan_word(chars@, pos as int) == Scan::Emit(r.0@),
        r.1 == pos + 1 + word_len(chars@, pos + 1),
        r.1 <= chars.len(),
{
    proof {
        reveal_with_fuel(Value::model, 1);
    }
    let end = skip_word(chars, pos + 1);
    let word = text_of(chars, pos, end);
    let kind = classify(&word);
    (Token { kind, value: Value::String(word) }, end)
}

/// Turns source text into its tokens, closed by the end marker. Fails at the
/// first character that starts no token and at a malformed literal.
pub fn tokenize(input: &str) -> (r: Result<Vec<Token>, LexError>)
    ensures
        match r {
            Ok(tokens) => tokenize_spec(input@) == Ok::<Seq<TokenView>, LexError>(
                tokens_view(tokens@),
            ),
            Err(e) => tokenize_spec(input@) == Err::<Seq<TokenView>, LexError>(e),
        },
{
    let chars = characters(input);
    let mut tokens: Vec<Token> = Vec::new();
    let mut cursor: usize = 0;
    assert(tokens_view(tokens@) =~= Seq::empty());
    while cursor < chars.len()
        invariant
            cursor <= chars.len(),
            chars@ == input@,
            tokenize_spec(input@) == lex(chars@, cursor as int, tokens_view(tokens@)),
        decreases chars.len() - cursor,
    {
        let c = chars[cursor];
        if c == ' ' || c == '\n' {
            cursor += 1;
        } else {
            let found = match read_symbol(&chars, cursor) {
                Some(found) => found,
                None => {
                    if char_is_digit(c) {
                        match read_number(&chars, cursor) {
                            Ok(found) => found,
                            Err(e) => {
                                return Err(e);
                            },
                        }
                    } else if c == '"' {
                        match read_string(&chars, cursor) {
                            Ok(found) => found,
                            Err(e) => {
                                return Err(e);
                            },
                        }
                    } else if char_is_alphabetic(c) {
                        read_word(&chars, cursor)
                    } else {
                        return Err(LexError { position: cursor, character: c });
                    }
                },
            };
            let (token, next) = found;
            proof {
                lemma_tokens_view_push(tokens@, token);
            }
            tokens.push(token);
            cursor = next;
        }
    }
    let marker = end_marker_token();
    proof {
        lemma_tokens_view_push(tokens@, marker);
    }
    tokens.push(marker);
    Ok(tokens)
}

} // verus!
