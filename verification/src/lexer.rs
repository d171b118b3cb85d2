//! The lexical layer of the language: from characters to tokens.

use crate::word::Word;
use vstd::prelude::*;

verus! {

/// A token of the language.
#[derive(Debug, PartialEq)]
pub enum Token {
    /// A primitive word.
    Word(Word),
    /// An integer literal.
    Integer(i64),
    /// An integer literal that is beyond 64 bits.
    TooBig,
    /// A float literal, as it is written.
    Float(String),
    /// A text literal, without its quotes.
    Text(String),
    LParen,
    RParen,
    LBracket,
    RBracket,
    /// The grave accent that stands on both sides of an infix word.
    Gravis,
    /// The semicolon that stands between juxtaposed fragments.
    Semicolon,
}

/// The model of a token.
pub enum Lexeme {
    Word(Word),
    Integer(i64),
    TooBig,
    Float(Seq<char>),
    Text(Seq<char>),
    LParen,
    RParen,
    LBracket,
    RBracket,
    Gravis,
    Semicolon,
}

impl View for Token {
    type V = Lexeme;

    open spec fn view(&self) -> Lexeme {
        match self {
            Token::Word(w) => Lexeme::Word(*w),
            Token::Integer(i) => Lexeme::Integer(*i),
            Token::TooBig => Lexeme::TooBig,
            Token::Float(t) => Lexeme::Float(t@),
            Token::Text(t) => Lexeme::Text(t@),
            Token::LParen => Lexeme::LParen,
            Token::RParen => Lexeme::RParen,
            Token::LBracket => Lexeme::LBracket,
            Token::RBracket => Lexeme::RBracket,
            Token::Gravis => Lexeme::Gravis,
            Token::Semicolon => Lexeme::Semicolon,
        }
    }
}

/// The models of a sequence of tokens.
pub open spec fn lexemes(s: Seq<Token>) -> Seq<Lexeme> {
    Seq::new(s.len(), |i: int| s[i]@)
}

/// The character is white space.
pub open spec fn is_space(c: char) -> bool {
    c == ' ' || c == '\n' || c == '\r' || c == '\t'
}

/// The character is a decimal digit.
pub open spec fn is_digit(c: char) -> bool {
    '0' <= c && c <= '9'
}

/// The token that a single character spells, if it spells one.
pub open spec fn symbol(c: char) -> Option<Lexeme> {
    if c == '>' {
        Some(Lexeme::Word(Word::Gt))
    } else if c == '=' {
        Some(Lexeme::Word(Word::Eq))
    } else if c == '<' {
        Some(Lexeme::Word(Word::Lt))
    } else if c == '+' {
        Some(Lexeme::Word(Word::Plus))
    } else if c == '−' {
        Some(Lexeme::Word(Word::Minus))
    } else if c == '×' {
        Some(Lexeme::Word(Word::Prod))
    } else if c == '÷' {
        Some(Lexeme::Word(Word::Div))
    } else if c == '↔' {
        Some(Lexeme::Word(Word::Swap))
    } else if c == '⇈' {
        Some(Lexeme::Word(Word::Dup))
    } else if c == '↓' {
        Some(Lexeme::Word(Word::Drop))
    } else if c == '·' {
        Some(Lexeme::Word(Word::Id))
    } else if c == '⍬' {
        Some(Lexeme::Word(Word::Zilde))
    } else if c == ',' {
        Some(Lexeme::Word(Word::Comma))
    } else if c == '⍘' {
        Some(Lexeme::Word(Word::Behead))
    } else if c == '⎕' {
        Some(Lexeme::Word(Word::Print))
    } else if c == '∇' {
        Some(Lexeme::Word(Word::Rec))
    } else if c == '(' {
        Some(Lexeme::LParen)
    } else if c == ')' {
        Some(Lexeme::RParen)
    } else if c == '[' {
        Some(Lexeme::LBracket)
    } else if c == ']' {
        Some(Lexeme::RBracket)
    } else if c == '`' {
        Some(Lexeme::Gravis)
    } else if c == ';' {
        Some(Lexeme::Semicolon)
    } else {
        None
    }
}

/// Where the white space that starts at `pos` ends.
pub open spec fn spaces_end(s: Seq<char>, pos: int) -> int
    decreases s.len() - pos,
{
    if 0 <= pos < s.len() && is_space(s[pos]) {
        spaces_end(s, pos + 1)
    } else {
        pos
    }
}

/// Where the line that `pos` is on ends: at its line feed or at the end of
/// the text.
pub open spec fn line_end(s: Seq<char>, pos: int) -> int
    decreases s.len() - pos,
{
    if 0 <= pos < s.len() && s[pos] != '\n' {
        line_end(s, pos + 1)
    } else {
        pos
    }
}

/// Where the digits that start at `pos` end.
pub open spec fn digits_end(s: Seq<char>, pos: int) -> int
    decreases s.len() - pos,
{
    if 0 <= pos < s.len() && is_digit(s[pos]) {
        digits_end(s, pos + 1)
    } else {
        pos
    }
}

/// Where the next quote at or after `pos` is, or the end of the text if
/// there is none.
pub open spec fn quote_at(s: Seq<char>, pos: int) -> int
    decreases s.len() - pos,
{
    if 0 <= pos < s.len() && s[pos] != '\'' {
        quote_at(s, pos + 1)
    } else {
        pos
    }
}

/// Where what separates tokens ends: white space, and after it a comment
/// from its sign to the end of its line.
pub open spec fn spacing_end(s: Seq<char>, pos: int) -> int {
    let p = spaces_end(s, pos);
    if 0 <= p < s.len() && s[p] == '⍝' {
        line_end(s, p + 1)
    } else {
        p
    }
}

/// The number that decimal digits spell.
pub open spec fn number(digits: Seq<char>) -> nat
    decreases digits.len(),
{
    if digits.len() == 0 {
        0
    } else {
        (number(digits.drop_last()) * 10 + (digits.last() as int - '0' as int)) as nat
    }
}

/// The token that starts at `pos`, and where the next one may start; none
/// where no token starts.
///
/// Digits are an integer, or a float if a point and more digits follow. A
/// text runs from a quote to the next one. Every other token is one
/// character.
pub open spec fn scan(s: Seq<char>, pos: int) -> Option<(Lexeme, int)> {
    if !(0 <= pos < s.len()) {
        None
    } else if is_digit(s[pos]) {
        let whole = digits_end(s, pos);
        if whole + 1 < s.len() && s[whole] == '.' && is_digit(s[whole + 1]) {
            let end = digits_end(s, whole + 1);
            Some((Lexeme::Float(s.subrange(pos, end)), spacing_end(s, end)))
        } else {
            let v = number(s.subrange(pos, whole));
            let lexeme = if v <= i64::MAX {
                Lexeme::Integer(v as i64)
            } else {
                Lexeme::TooBig
            };
            Some((lexeme, spacing_end(s, whole)))
        }
    } else if s[pos] == '\'' {
        let close = quote_at(s, pos + 1);
        if close < s.len() {
            Some((Lexeme::Text(s.subrange(pos + 1, close)), spacing_end(s, close + 1)))
        } else {
            None
        }
    } else {
        match symbol(s[pos]) {
            Some(lexeme) => Some((lexeme, spacing_end(s, pos + 1))),
            None => None,
        }
    }
}

/// The tokens from `pos` on, up to the first place where no token starts.
pub open spec fn lex_from(s: Seq<char>, pos: int) -> Seq<Lexeme>
    decreases s.len() - pos,
{
    match scan(s, pos) {
        Some((lexeme, next)) => {
            if pos < next <= s.len() {
                seq![lexeme] + lex_from(s, next)
            } else {
                seq![lexeme]
            }
        },
        None => Seq::empty(),
    }
}

/// The tokens of a text, up to the first place where no token starts.
pub open spec fn lex(s: Seq<char>) -> Seq<Lexeme> {
    lex_from(s, spacing_end(s, 0))
}

/// The characters of a text.
fn characters(code: &str) -> (r: Vec<char>)
    ensures
        r@ == code@,
{
    let mut out: Vec<char> = Vec::new();
    for c in it: code.chars()
        invariant
            out@ == it.seq().take(it.index() as int),
            it.seq() == code@,
    {
        out.push(c);
    }
    out
}

fn skip_spaces(s: &Vec<char>, pos: usize) -> (r: usize)
    requires
        pos <= s.len(),
    ensures
        r == spaces_end(s@, pos as int),
        pos <= r <= s.len(),
{
    let mut p: usize = pos;
    while p < s.len() && (s[p] == ' ' || s[p] == '\n' || s[p] == '\r' || s[p] == '\t')
        invariant
            pos <= p <= s.len(),
            spaces_end(s@, pos as int) == spaces_end(s@, p as int),
        decreases s.len() - p,
    {
        p += 1;
    }
    p
}

fn skip_line(s: &Vec<char>, pos: usize) -> (r: usize)
    requires
        pos <= s.len(),
    ensures
        r == line_end(s@, pos as int),
        pos <= r <= s.len(),
{
    let mut p: usize = pos;
    while p < s.len() && s[p] != '\n'
        invariant
            pos <= p <= s.len(),
            line_end(s@, pos as int) == line_end(s@, p as int),
        decreases s.len() - p,
    {
        p += 1;
    }
    p
}

fn skip_digits(s: &Vec<char>, pos: usize) -> (r: usize)
    requires
        pos <= s.len(),
    ensures
        r == digits_end(s@, pos as int),
        pos <= r <= s.len(),
{
    let mut p: usize = pos;
    while p < s.len() && '0' <= s[p] && s[p] <= '9'
        invariant
            pos <= p <= s.len(),
            digits_end(s@, pos as int) == digits_end(s@, p as int),
        decreases s.len() - p,
    {
        p += 1;
    }
    p
}

fn find_quote(s: &Vec<char>, pos: usize) -> (r: usize)
    requires
        pos <= s.len(),
    ensures
        r == quote_at(s@, pos as int),
        pos <= r <= s.len(),
{
    let mut p: usize = pos;
    while p < s.len() && s[p] != '\''
        invariant
            pos <= p <= s.len(),
            quote_at(s@, pos as int) == quote_at(s@, p as int),
        decreases s.len() - p,
    {
        p += 1;
    }
    p
}

fn skip_spacing(s: &Vec<char>, pos: usize) -> (r: usize)
    requires
        pos <= s.len(),
    ensures
        r == spacing_end(s@, pos as int),
        pos <= r <= s.len(),
{
    let p = skip_spaces(s, pos);
    if p < s.len() && s[p] == '⍝' {
        skip_line(s, p + 1)
    } else {
        p
    }
}

/// The integer that the digits from `from` to `to` spell, or none if it is
/// beyond 64 bits.
fn read_integer(s: &Vec<char>, from: usize, to: usize) -> (r: Option<i64>)
    requires
        from <= to <= s.len(),
        forall|i: int| from <= i < to ==> is_digit(#[trigger] s[i]),
    ensures
        r is Some <==> number(s@.subrange(from as int, to as int)) <= i64::MAX,
        r matches Some(v) ==> v == number(s@.subrange(from as int, to as int)),
{
    let mut value: Option<i64> = Some(0);
    let mut i: usize = from;
    while i < to
        invariant
            from <= i <= to <= s.len(),
            forall|j: int| from <= j < to ==> is_digit(#[trigger] s[j]),
            value is Some <==> number(s@.subrange(from as int, i as int)) <= i64::MAX,
            value matches Some(v) ==> v == number(s@.subrange(from as int, i as int)),
        decreases to - i,
    {
        let d: i64 = (s[i] as u32 - '0' as u32) as i64;
        proof {
            let longer = s@.subrange(from as int, i + 1);
            assert(longer.drop_last() =~= s@.subrange(from as int, i as int));
        }
        value = match value {
            Some(v) => match v.checked_mul(10) {
                Some(tenfold) => tenfold.checked_add(d),
                None => None,
            },
            None => None,
        };
        i += 1;
    }
    value
}

fn symbol_token(c: char) -> (r: Option<Token>)
    ensures
        r is Some <==> symbol(c) is Some,
        r matches Some(t) ==> symbol(c) == Some(t@),
{
    if c == '>' {
        Some(Token::Word(Word::Gt))
    } else if c == '=' {
        Some(Token::Word(Word::Eq))
    } else if c == '<' {
        Some(Token::Word(Word::Lt))
    } else if c == '+' {
        Some(Token::Word(Word::Plus))
    } else if c == '−' {
        Some(Token::Word(Word::Minus))
    } else if c == '×' {
        Some(Token::Word(Word::Prod))
    } else if c == '÷' {
        Some(Token::Word(Word::Div))
    } else if c == '↔' {
        Some(Token::Word(Word::Swap))
    } else if c == '⇈' {
        Some(Token::Word(Word::Dup))
    } else if c == '↓' {
        Some(Token::Word(Word::Drop))
    } else if c == '·' {
        Some(Token::Word(Word::Id))
    } else if c == '⍬' {
        Some(Token::Word(Word::Zilde))
    } else if c == ',' {
        Some(Token::Word(Word::Comma))
    } else if c == '⍘' {
        Some(Token::Word(Word::Behead))
    } else if c == '⎕' {
        Some(Token::Word(Word::Print))
    } else if c == '∇' {
        Some(Token::Word(Word::Rec))
    } else if c == '(' {
        Some(Token::LParen)
    } else if c == ')' {
        Some(Token::RParen)
    } else if c == '[' {
        Some(Token::LBracket)
    } else if c == ']' {
        Some(Token::RBracket)
    } else if c == '`' {
        Some(Token::Gravis)
    } else if c == ';' {
        Some(Token::Semicolon)
    } else {
        None
    }
}

/// The digits that start at `pos` are digits up to where they end.
proof fn digits_are_digits(s: Seq<char>, pos: int)
    requires
        0 <= pos <= s.len(),
    ensures
        pos <= digits_end(s, pos) <= s.len(),
        forall|i: int| pos <= i < digits_end(s, pos) ==> is_digit(#[trigger] s[i]),
    decreases s.len() - pos,
{
    if pos < s.len() && is_digit(s[pos]) {
        digits_are_digits(s, pos + 1);
    }
}

/// The token that starts at `pos`, and where the next one may start.
fn scan_token(code: &str, s: &Vec<char>, pos: usize) -> (r: Option<(Token, usize)>)
    requires
        s@ == code@,
        pos <= s.len(),
    ensures
        r is Some <==> scan(s@, pos as int) is Some,
        r matches Some((t, next)) ==> scan(s@, pos as int) == Some((t@, next as int)) && pos < next
            <= s.len(),
{
    if pos >= s.len() {
        return None;
    }
    let c = s[pos];
    if '0' <= c && c <= '9' {
        let whole = skip_digits(s, pos);
        proof {
            digits_are_digits(s@, pos as int);
            digits_are_digits(s@, pos + 1);
        }
        if whole < s.len() - 1 && s[whole] == '.' && '0' <= s[whole + 1] && s[whole + 1] <= '9' {
            let end = skip_digits(s, whole + 1);
            let text = code.substring_char(pos, end).to_owned();
            Some((Token::Float(text), skip_spacing(s, end)))
        } else {
            let token = match read_integer(s, pos, whole) {
                Some(v) => Token::Integer(v),
                None => Token::TooBig,
            };
            Some((token, skip_spacing(s, whole)))
        }
    } else if c == '\'' {
        let close = find_quote(s, pos + 1);
        if close < s.len() {
            let text = code.substring_char(pos + 1, close).to_owned();
            Some((Token::Text(text), skip_spacing(s, close + 1)))
        } else {
            None
        }
    } else {
        match symbol_token(c) {
            Some(token) => Some((token, skip_spacing(s, pos + 1))),
            None => None,
        }
    }
}

/// The tokens of a text, up to the first place where no token starts.
pub fn tokenize(code: &str) -> (r: Vec<Token>)
    ensures
        lexemes(r@) == lex(code@),
{
    let s = characters(code);
    let mut tokens: Vec<Token> = Vec::new();
    let mut pos: usize = skip_spacing(&s, 0);
    loop
        invariant
            s@ == code@,
            pos <= s.len(),
            lexemes(tokens@) + lex_from(s@, pos as int) == lex(code@),
        ensures
            lexemes(tokens@) == lex(code@),
        decreases s.len() - pos,
    {
        match scan_token(code, &s, pos) {
            Some((token, next)) => {
                let ghost before = lexemes(tokens@);
                let ghost lexeme = token@;
                tokens.push(token);
                proof {
                    assert(before.push(lexeme) + lex_from(s@, next as int) =~= before + (seq![lexeme]
                        + lex_from(s@, next as int)));
                }
                pos = next;
            },
            None => {
                break;
            },
        }
    }
    tokens
}

} // verus!
