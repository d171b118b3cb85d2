//! The grammar of the language: from tokens to a raw syntax tree.
//!
//! The grammar is a parsing expression grammar: alternatives are tried in
//! order, the first that matches is taken, and a repetition takes as many
//! items as it can. A text need not be a program to its end: what follows
//! the longest expression at its start is left unread.

use crate::ast::{terms, Expression, Term};
use crate::lexer::{lex, lexemes, tokenize, Lexeme, Token};
use crate::word::Word;
use vstd::prelude::*;

verus! {

/// What a rule of the grammar finds at a position.
pub enum Outcome {
    /// The tree that was read, and the position behind it.
    Match(Term, int),
    /// The rule does not match here.
    Miss,
    /// The rule came upon an integer literal beyond 64 bits: nothing can
    /// be read.
    Abort,
}

/// What a repetition finds at a position.
pub enum Run {
    /// The trees that were read, and the position behind them.
    Match(Seq<Term>, int),
    /// An item came upon an integer literal beyond 64 bits.
    Abort,
}

/// `plain`: a text, a number or a word.
pub open spec fn plain(t: Seq<Lexeme>, p: int) -> Outcome {
    if !(0 <= p < t.len()) {
        Outcome::Miss
    } else {
        match t[p] {
            Lexeme::Text(s) => Outcome::Match(Term::Text(s), p + 1),
            Lexeme::Integer(i) => Outcome::Match(Term::Integer(i), p + 1),
            Lexeme::Float(f) => Outcome::Match(Term::Float(f), p + 1),
            Lexeme::TooBig => Outcome::Abort,
            Lexeme::Word(w) => Outcome::Match(Term::Word(w), p + 1),
            _ => Outcome::Miss,
        }
    }
}

/// `infixed`: a word between two grave accents.
pub open spec fn infixed(t: Seq<Lexeme>, p: int) -> Option<(Word, int)> {
    if 0 <= p && p + 2 < t.len() && t[p] == Lexeme::Gravis && t[p + 2] == Lexeme::Gravis {
        match t[p + 1] {
            Lexeme::Word(w) => Some((w, p + 3)),
            _ => None,
        }
    } else {
        None
    }
}

/// One more link of an infix chain: the chain so far and the next operand
/// side by side, piped into the word between them.
pub open spec fn link(chain: Term, w: Word, operand: Term) -> Term {
    Term::Composition(seq![Term::Concatenation(seq![chain, operand]), Term::Word(w)])
}

/// `expression`: a composition, a juxtaposition, a fragment that is not
/// empty, a plain one, or else nothing at all.
pub open spec fn expression(t: Seq<Lexeme>, p: int) -> Outcome
    decreases t.len() - p, 8int,
{
    match composition(t, p) {
        Outcome::Miss => match concatenation(t, p) {
            Outcome::Miss => match non_empty(t, p) {
                Outcome::Miss => match plain(t, p) {
                    Outcome::Miss => Outcome::Match(Term::Nop, p),
                    found => found,
                },
                found => found,
            },
            found => found,
        },
        found => found,
    }
}

/// `composition`: an infix form, a juxtaposition or a simple fragment, and
/// after it one or more fragments.
pub open spec fn composition(t: Seq<Lexeme>, p: int) -> Outcome
    decreases t.len() - p, 7int,
{
    let head = match infix(t, p) {
        Outcome::Miss => match concatenation(t, p) {
            Outcome::Miss => simple(t, p),
            found => found,
        },
        found => found,
    };
    match head {
        Outcome::Match(first, q) => {
            if p < q <= t.len() {
                match fragments(t, q) {
                    Run::Match(more, r) => {
                        if more.len() > 0 {
                            Outcome::Match(Term::Composition(seq![first] + more), r)
                        } else {
                            Outcome::Miss
                        }
                    },
                    Run::Abort => Outcome::Abort,
                }
            } else {
                Outcome::Miss
            }
        },
        other => other,
    }
}

/// As many fragments as follow, each `non_empty` or `plain`.
pub open spec fn fragments(t: Seq<Lexeme>, p: int) -> Run
    decreases t.len() - p, 9int,
{
    let item = match non_empty(t, p) {
        Outcome::Miss => plain(t, p),
        found => found,
    };
    match item {
        Outcome::Match(e, q) => {
            if p < q <= t.len() {
                match fragments(t, q) {
                    Run::Match(more, r) => Run::Match(seq![e] + more, r),
                    Run::Abort => Run::Abort,
                }
            } else {
                Run::Match(Seq::empty(), p)
            }
        },
        Outcome::Miss => Run::Match(Seq::empty(), p),
        Outcome::Abort => Run::Abort,
    }
}

/// `non_empty`: an infix form, a juxtaposition, a quotation or an
/// expression in parentheses.
pub open spec fn non_empty(t: Seq<Lexeme>, p: int) -> Outcome
    decreases t.len() - p, 6int,
{
    match infix(t, p) {
        Outcome::Miss => match concatenation(t, p) {
            Outcome::Miss => {
                if 0 <= p < t.len() && (t[p] == Lexeme::LBracket || t[p] == Lexeme::LParen) {
                    bracketed(t, p)
                } else {
                    Outcome::Miss
                }
            },
            found => found,
        },
        found => found,
    }
}

/// `infix`: a simple fragment and after it one or more infix words each
/// with its operand, which make a chain; or a simple fragment and an infix
/// word behind it; or an infix word and a simple fragment behind it.
pub open spec fn infix(t: Seq<Lexeme>, p: int) -> Outcome
    decreases t.len() - p, 5int,
{
    match simple(t, p) {
        Outcome::Match(first, q) => {
            match infixed(t, q) {
                Some((w, q2)) => {
                    if p < q {
                        match simple(t, q2) {
                            Outcome::Match(second, r) => {
                                if q2 < r <= t.len() {
                                    links(t, r, link(first, w, second))
                                } else {
                                    Outcome::Miss
                                }
                            },
                            Outcome::Miss => Outcome::Match(
                                Term::InfixLeft(Box::new(first), Box::new(Term::Word(w))),
                                q2,
                            ),
                            Outcome::Abort => Outcome::Abort,
                        }
                    } else {
                        Outcome::Miss
                    }
                },
                None => Outcome::Miss,
            }
        },
        Outcome::Miss => {
            match infixed(t, p) {
                Some((w, q)) => match simple(t, q) {
                    Outcome::Match(operand, r) => Outcome::Match(
                        Term::InfixRight(Box::new(Term::Word(w)), Box::new(operand)),
                        r,
                    ),
                    other => other,
                },
                None => Outcome::Miss,
            }
        },
        Outcome::Abort => Outcome::Abort,
    }
}

/// As many links as follow a chain, each an infix word with its operand.
pub open spec fn links(t: Seq<Lexeme>, p: int, chain: Term) -> Outcome
    decreases t.len() - p, 9int,
{
    match infixed(t, p) {
        Some((w, q)) => match simple(t, q) {
            Outcome::Match(operand, r) => {
                if q < r <= t.len() {
                    links(t, r, link(chain, w, operand))
                } else {
                    Outcome::Match(chain, p)
                }
            },
            Outcome::Miss => Outcome::Match(chain, p),
            Outcome::Abort => Outcome::Abort,
        },
        None => Outcome::Match(chain, p),
    }
}

/// `concatenation`: a simple fragment and after it one or more simple
/// fragments, each behind a semicolon.
pub open spec fn concatenation(t: Seq<Lexeme>, p: int) -> Outcome
    decreases t.len() - p, 4int,
{
    match simple(t, p) {
        Outcome::Match(first, q) => {
            if p < q <= t.len() {
                match neighbours(t, q) {
                    Run::Match(more, r) => {
                        if more.len() > 0 {
                            Outcome::Match(Term::Concatenation(seq![first] + more), r)
                        } else {
                            Outcome::Miss
                        }
                    },
                    Run::Abort => Outcome::Abort,
                }
            } else {
                Outcome::Miss
            }
        },
        other => other,
    }
}

/// As many simple fragments as follow, each behind a semicolon.
pub open spec fn neighbours(t: Seq<Lexeme>, p: int) -> Run
    decreases t.len() - p, 9int,
{
    if 0 <= p < t.len() && t[p] == Lexeme::Semicolon {
        match simple(t, p + 1) {
            Outcome::Match(e, q) => {
                if p < q <= t.len() {
                    match neighbours(t, q) {
                        Run::Match(more, r) => Run::Match(seq![e] + more, r),
                        Run::Abort => Run::Abort,
                    }
                } else {
                    Run::Match(Seq::empty(), p)
                }
            },
            Outcome::Miss => Run::Match(Seq::empty(), p),
            Outcome::Abort => Run::Abort,
        }
    } else {
        Run::Match(Seq::empty(), p)
    }
}

/// `simple`: a quotation, an expression in parentheses, a text, a number
/// or a word.
pub open spec fn simple(t: Seq<Lexeme>, p: int) -> Outcome
    decreases t.len() - p, 3int,
{
    if 0 <= p < t.len() && (t[p] == Lexeme::LBracket || t[p] == Lexeme::LParen) {
        bracketed(t, p)
    } else {
        plain(t, p)
    }
}

/// `ensquared` and `enclosed`: an expression in square brackets is a
/// quotation of it, and an expression in parentheses is itself.
pub open spec fn bracketed(t: Seq<Lexeme>, p: int) -> Outcome
    decreases t.len() - p, 2int,
{
    if 0 <= p < t.len() && (t[p] == Lexeme::LBracket || t[p] == Lexeme::LParen) {
        match expression(t, p + 1) {
            Outcome::Match(e, q) => {
                if t[p] == Lexeme::LBracket {
                    if 0 <= q < t.len() && t[q] == Lexeme::RBracket {
                        Outcome::Match(Term::Quotation(Box::new(e)), q + 1)
                    } else {
                        Outcome::Miss
                    }
                } else {
                    if 0 <= q < t.len() && t[q] == Lexeme::RParen {
                        Outcome::Match(e, q + 1)
                    } else {
                        Outcome::Miss
                    }
                }
            },
            other => other,
        }
    } else {
        Outcome::Miss
    }
}

/// `program`: the expression at the start of the tokens.
pub open spec fn program(t: Seq<Lexeme>) -> Outcome {
    expression(t, 0)
}

/// What `infix`, `concatenation` and `simple` find, tried in this order:
/// that with which an expression begins.
pub open spec fn head(t: Seq<Lexeme>, p: int) -> Outcome {
    match infix(t, p) {
        Outcome::Miss => match concatenation(t, p) {
            Outcome::Miss => simple(t, p),
            found => found,
        },
        found => found,
    }
}

/// What `non_empty` and `plain` find, tried in this order: a fragment of a
/// composition.
pub open spec fn fragment(t: Seq<Lexeme>, p: int) -> Outcome {
    match non_empty(t, p) {
        Outcome::Miss => plain(t, p),
        found => found,
    }
}

/// Where an infix form matches, no juxtaposition does: behind the simple
/// fragment that both begin with stands a grave accent, not a semicolon.
pub proof fn infix_excludes_concatenation(t: Seq<Lexeme>, p: int)
    requires
        infix(t, p) is Match,
    ensures
        concatenation(t, p) is Miss,
{
}

/// A fragment of a composition is what an expression begins with.
pub proof fn fragment_is_head(t: Seq<Lexeme>, p: int)
    ensures
        fragment(t, p) == head(t, p),
{
}

/// An expression is what it begins with and the fragments that follow: a
/// composition of them all if any follow, the beginning alone if none does,
/// and a no-op where nothing begins.
pub proof fn expression_is_head_and_fragments(t: Seq<Lexeme>, p: int)
    requires
        head(t, p) matches Outcome::Match(_, q) ==> p < q <= t.len(),
    ensures
        expression(t, p) == match head(t, p) {
            Outcome::Match(first, q) => match fragments(t, q) {
                Run::Match(more, r) => {
                    if more.len() > 0 {
                        Outcome::Match(Term::Composition(seq![first] + more), r)
                    } else {
                        Outcome::Match(first, q)
                    }
                },
                Run::Abort => Outcome::Abort,
            },
            Outcome::Miss => Outcome::Match(Term::Nop, p),
            Outcome::Abort => Outcome::Abort,
        },
{
    if infix(t, p) is Match {
        infix_excludes_concatenation(t, p);
    }
}

/// What a rule of the grammar finds at a position.
#[derive(Debug, PartialEq)]
pub enum Found {
    /// The tree that was read, and the position behind it.
    Match(Expression, usize),
    /// The rule does not match here.
    Miss,
    /// The rule came upon an integer literal beyond 64 bits.
    Abort,
}

impl View for Found {
    type V = Outcome;

    open spec fn view(&self) -> Outcome {
        match self {
            Found::Match(e, q) => Outcome::Match(e@, *q as int),
            Found::Miss => Outcome::Miss,
            Found::Abort => Outcome::Abort,
        }
    }
}

impl Found {
    /// What was found lies within the tokens, behind `pos`.
    pub open spec fn advances(self, pos: usize, len: usize) -> bool {
        self matches Found::Match(_, q) ==> pos < q <= len
    }
}

/// Reads a text, a number or a word.
fn parse_plain(tokens: &Vec<Token>, pos: usize) -> (r: Found)
    ensures
        r@ == plain(lexemes(tokens@), pos as int),
        r.advances(pos, tokens.len()),
{
    if pos >= tokens.len() {
        return Found::Miss;
    }
    match &tokens[pos] {
        Token::Text(s) => Found::Match(Expression::String(s.clone()), pos + 1),
        Token::Integer(i) => Found::Match(Expression::Integer(*i), pos + 1),
        Token::Float(f) => Found::Match(Expression::Float(f.clone()), pos + 1),
        Token::TooBig => Found::Abort,
        Token::Word(w) => Found::Match(Expression::Word(*w), pos + 1),
        _ => Found::Miss,
    }
}

/// Reads a word between two grave accents.
fn parse_infixed(tokens: &Vec<Token>, pos: usize) -> (r: Option<(Word, usize)>)
    ensures
        r == match infixed(lexemes(tokens@), pos as int) {
            Some((w, q)) => Some((w, q as usize)),
            None => None,
        },
        r matches Some((_, q)) ==> q == pos + 3 && q <= tokens.len(),
{
    if tokens.len() < 3 || pos >= tokens.len() - 2 {
        return None;
    }
    if !matches!(tokens[pos], Token::Gravis) || !matches!(tokens[pos + 2], Token::Gravis) {
        return None;
    }
    match &tokens[pos + 1] {
        Token::Word(w) => Some((*w, pos + 3)),
        _ => None,
    }
}

/// One more link of an infix chain.
fn link_expression(chain: Expression, w: Word, operand: Expression) -> (r: Expression)
    ensures
        r@ == link(chain@, w, operand@),
{
    let ghost pair = seq![chain@, operand@];
    let mut conc: Vec<Expression> = Vec::new();
    conc.push(chain);
    conc.push(operand);
    assert(terms(conc@) =~= pair);
    let inner = Expression::Concatenation(conc);
    let ghost both = seq![inner@, Term::Word(w)];
    let mut comp: Vec<Expression> = Vec::new();
    comp.push(inner);
    comp.push(Expression::Word(w));
    assert(terms(comp@) =~= both);
    Expression::Composition(comp)
}

/// Reads an expression: what it begins with, and the fragments that
/// follow.
fn parse_expression(tokens: &Vec<Token>, pos: usize) -> (r: Found)
    requires
        pos <= tokens.len(),
    ensures
        r@ == expression(lexemes(tokens@), pos as int),
        r matches Found::Match(_, q) ==> pos <= q <= tokens.len(),
        r !is Miss,
    decreases tokens.len() - pos, 8int,
{
    let found = parse_head(tokens, pos);
    proof {
        expression_is_head_and_fragments(lexemes(tokens@), pos as int);
    }
    match found {
        Found::Match(first, q) => {
            let ghost head_term = first@;
            let mut items: Vec<Expression> = Vec::new();
            items.push(first);
            assert(terms(items@) =~= seq![head_term]);
            match parse_fragments(tokens, q, &mut items) {
                Some(r) => {
                    assert(terms(items@).len() == items.len());
                    if items.len() > 1 {
                        Found::Match(Expression::Composition(items), r)
                    } else {
                        let ghost only = items@[0];
                        assert(terms(items@)[0] == only@);
                        Found::Match(items.pop().unwrap(), q)
                    }
                },
                None => Found::Abort,
            }
        },
        Found::Miss => Found::Match(Expression::Nop, pos),
        Found::Abort => Found::Abort,
    }
}

/// Reads what an expression begins with: an infix form, a juxtaposition or
/// a simple fragment. All three begin with a simple fragment, which is read
/// once.
fn parse_head(tokens: &Vec<Token>, pos: usize) -> (r: Found)
    requires
        pos <= tokens.len(),
    ensures
        r@ == head(lexemes(tokens@), pos as int),
        r.advances(pos, tokens.len()),
    decreases tokens.len() - pos, 7int,
{
    match parse_simple(tokens, pos) {
        Found::Match(first, q) => {
            match parse_infixed(tokens, q) {
                Some((w, q2)) => {
                    assert(Expression::Word(w)@ == Term::Word(w));
                    match parse_simple(tokens, q2) {
                        Found::Match(second, r) => {
                            parse_links(tokens, r, link_expression(first, w, second))
                        },
                        Found::Miss => Found::Match(
                            Expression::InfixLeft(Box::new(first), Box::new(Expression::Word(w))),
                            q2,
                        ),
                        Found::Abort => Found::Abort,
                    }
                },
                None => {
                    let ghost head_term = first@;
                    let mut items: Vec<Expression> = Vec::new();
                    items.push(first);
                    assert(terms(items@) =~= seq![head_term]);
                    match parse_neighbours(tokens, q, &mut items) {
                        Some(r) => {
                            assert(terms(items@).len() == items.len());
                            if items.len() > 1 {
                                Found::Match(Expression::Concatenation(items), r)
                            } else {
                                let ghost only = items@[0];
                                assert(terms(items@)[0] == only@);
                                Found::Match(items.pop().unwrap(), q)
                            }
                        },
                        None => Found::Abort,
                    }
                },
            }
        },
        Found::Miss => {
            match parse_infixed(tokens, pos) {
                Some((w, q)) => {
                    assert(Expression::Word(w)@ == Term::Word(w));
                    match parse_simple(tokens, q) {
                        Found::Match(operand, r) => Found::Match(
                            Expression::InfixRight(
                                Box::new(Expression::Word(w)),
                                Box::new(operand),
                            ),
                            r,
                        ),
                        other => other,
                    }
                },
                None => Found::Miss,
            }
        },
        Found::Abort => Found::Abort,
    }
}

/// Reads as many fragments as follow, and puts them behind those in `acc`.
fn parse_fragments(tokens: &Vec<Token>, pos: usize, acc: &mut Vec<Expression>) -> (r: Option<usize>)
    requires
        pos <= tokens.len(),
    ensures
        match fragments(lexemes(tokens@), pos as int) {
            Run::Match(more, q) => r == Some(q as usize) && pos <= q <= tokens.len() && terms(
                final(acc)@,
            ) == terms(old(acc)@) + more,
            Run::Abort => r is None,
        },
    decreases tokens.len() - pos, 9int,
{
    proof {
        fragment_is_head(lexemes(tokens@), pos as int);
    }
    match parse_head(tokens, pos) {
        Found::Match(e, q) => {
            acc.push(e);
            parse_fragments(tokens, q, acc)
        },
        Found::Miss => Some(pos),
        Found::Abort => None,
    }
}

/// Reads as many links as follow a chain, and adds them to it.
fn parse_links(tokens: &Vec<Token>, pos: usize, chain: Expression) -> (r: Found)
    requires
        pos <= tokens.len(),
    ensures
        r@ == links(lexemes(tokens@), pos as int, chain@),
        r matches Found::Match(_, q) ==> pos <= q <= tokens.len(),
        r !is Miss,
    decreases tokens.len() - pos, 9int,
{
    match parse_infixed(tokens, pos) {
        Some((w, q)) => match parse_simple(tokens, q) {
            Found::Match(operand, r) => parse_links(tokens, r, link_expression(chain, w, operand)),
            Found::Miss => Found::Match(chain, pos),
            Found::Abort => Found::Abort,
        },
        None => Found::Match(chain, pos),
    }
}

/// Reads as many simple fragments as follow, each behind a semicolon, and
/// puts them behind those in `acc`.
fn parse_neighbours(tokens: &Vec<Token>, pos: usize, acc: &mut Vec<Expression>) -> (r: Option<usize>)
    requires
        pos <= tokens.len(),
    ensures
        match neighbours(lexemes(tokens@), pos as int) {
            Run::Match(more, q) => r == Some(q as usize) && pos <= q <= tokens.len() && terms(
                final(acc)@,
            ) == terms(old(acc)@) + more,
            Run::Abort => r is None,
        },
    decreases tokens.len() - pos, 9int,
{
    if pos < tokens.len() && matches!(tokens[pos], Token::Semicolon) {
        match parse_simple(tokens, pos + 1) {
            Found::Match(e, q) => {
                acc.push(e);
                parse_neighbours(tokens, q, acc)
            },
            Found::Miss => Some(pos),
            Found::Abort => None,
        }
    } else {
        Some(pos)
    }
}

/// Reads a quotation, an expression in parentheses, a text, a number or a
/// word.
fn parse_simple(tokens: &Vec<Token>, pos: usize) -> (r: Found)
    requires
        pos <= tokens.len(),
    ensures
        r@ == simple(lexemes(tokens@), pos as int),
        r.advances(pos, tokens.len()),
    decreases tokens.len() - pos, 3int,
{
    if pos < tokens.len() && (matches!(tokens[pos], Token::LBracket) || matches!(
        tokens[pos],
        Token::LParen
    )) {
        parse_bracketed(tokens, pos)
    } else {
        parse_plain(tokens, pos)
    }
}

/// Reads an expression in square brackets or in parentheses.
fn parse_bracketed(tokens: &Vec<Token>, pos: usize) -> (r: Found)
    requires
        pos <= tokens.len(),
    ensures
        r@ == bracketed(lexemes(tokens@), pos as int),
        r.advances(pos, tokens.len()),
    decreases tokens.len() - pos, 2int,
{
    if pos < tokens.len() && (matches!(tokens[pos], Token::LBracket) || matches!(
        tokens[pos],
        Token::LParen
    )) {
        match parse_expression(tokens, pos + 1) {
            Found::Match(e, q) => {
                if matches!(tokens[pos], Token::LBracket) {
                    if q < tokens.len() && matches!(tokens[q], Token::RBracket) {
                        Found::Match(Expression::Quotation(Box::new(e)), q + 1)
                    } else {
                        Found::Miss
                    }
                } else {
                    if q < tokens.len() && matches!(tokens[q], Token::RParen) {
                        Found::Match(e, q + 1)
                    } else {
                        Found::Miss
                    }
                }
            },
            other => other,
        }
    } else {
        Found::Miss
    }
}

/// Reads the expression at the start of the tokens.
pub fn parse_tokens(tokens: &Vec<Token>) -> (r: Found)
    ensures
        r@ == program(lexemes(tokens@)),
        r !is Miss,
{
    parse_expression(tokens, 0)
}

/// Reads the expression at the start of a text. What follows it is left
/// unread. Nothing can be read where the expression holds an integer
/// literal beyond 64 bits.
pub fn parse(code: String) -> (r: Result<Expression, ()>)
    ensures
        match program(lex(code@)) {
            Outcome::Match(tree, _) => r matches Ok(e) && e@ == tree,
            _ => r is Err,
        },
        r is Err <==> program(lex(code@)) is Abort,
{
    let tokens = tokenize(code.as_str());
    match parse_tokens(&tokens) {
        Found::Match(e, _) => Ok(e),
        _ => Err(()),
    }
}

} // verus!
