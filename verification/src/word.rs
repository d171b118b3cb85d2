//! The primitive words and their fixed stack effects.

use crate::arity::{Arity, Effect};
use vstd::prelude::*;

verus! {

/// The tag of a primitive operation.
#[derive(Debug, Clone, Copy, PartialEq, Eq, Structural)]
pub enum Word {
    Gt,
    Eq,
    Lt,
    Plus,
    Minus,
    Prod,
    Div,
    Swap,
    Dup,
    Drop,
    Id,
    Zilde,
    Comma,
    Behead,
    Print,
    Rec,
}

impl Word {
    /// The stack effect of the primitive.
    pub open spec fn effect(self) -> Effect {
        match self {
            Word::Gt | Word::Eq | Word::Lt => Effect { inputs: 2, outputs: 1 },
            Word::Plus | Word::Minus | Word::Prod | Word::Div => Effect { inputs: 2, outputs: 1 },
            Word::Swap => Effect { inputs: 2, outputs: 2 },
            Word::Dup => Effect { inputs: 1, outputs: 2 },
            Word::Drop => Effect { inputs: 1, outputs: 0 },
            Word::Id => Effect { inputs: 1, outputs: 1 },
            Word::Zilde => Effect { inputs: 0, outputs: 1 },
            Word::Comma => Effect { inputs: 2, outputs: 1 },
            Word::Behead => Effect { inputs: 1, outputs: 2 },
            Word::Print => Effect { inputs: 1, outputs: 0 },
            Word::Rec => Effect { inputs: 2, outputs: 1 },
        }
    }

    /// The primitive compares two numbers.
    pub open spec fn is_comparison(self) -> bool {
        self == Word::Gt || self == Word::Eq || self == Word::Lt
    }

    /// The primitive computes a number from two numbers.
    pub open spec fn is_arithmetic(self) -> bool {
        self == Word::Plus || self == Word::Minus || self == Word::Prod || self == Word::Div
    }
}

/// The fixed arity of a primitive.
pub fn word_arity(w: &Word) -> (r: Arity)
    ensures
        r@ == w.effect(),
{
    match *w {
        Word::Gt | Word::Eq | Word::Lt | Word::Plus | Word::Minus | Word::Prod | Word::Div => Arity(
            2,
            1,
        ),
        Word::Swap => Arity(2, 2),
        Word::Dup => Arity(1, 2),
        Word::Drop => Arity(1, 0),
        Word::Id => Arity(1, 1),
        Word::Zilde => Arity(0, 1),
        Word::Comma => Arity(2, 1),
        Word::Behead => Arity(1, 2),
        Word::Print => Arity(1, 0),
        Word::Rec => Arity(2, 1),
    }
}

} // verus!
