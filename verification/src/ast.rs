//! Raw and annotated syntax trees, with their mathematical models.

use crate::arity::{abreast, pipeline, Arity, Effect};
use crate::word::Word;
use vstd::prelude::*;

verus! {

/// A raw syntax tree, as a front end builds it.
///
/// A float literal is held as it is written: which number it stands for is
/// for the host of the machine to say.
#[derive(Debug, PartialEq)]
pub enum Expression {
    Composition(Vec<Expression>),
    Concatenation(Vec<Expression>),
    Word(Word),
    Integer(i64),
    Float(String),
    String(String),
    Quotation(Box<Expression>),
    Nop,
    /// `` foo `bar` ``
    InfixLeft(Box<Expression>, Box<Expression>),
    /// `` `foo` bar ``
    InfixRight(Box<Expression>, Box<Expression>),
}

/// The model of a raw syntax tree.
pub enum Term {
    Composition(Seq<Term>),
    Concatenation(Seq<Term>),
    Word(Word),
    Integer(i64),
    Float(Seq<char>),
    Text(Seq<char>),
    Quotation(Box<Term>),
    Nop,
    InfixLeft(Box<Term>, Box<Term>),
    InfixRight(Box<Term>, Box<Term>),
}

/// The models of a sequence of raw trees.
pub open spec fn terms(s: Seq<Expression>) -> Seq<Term>
    decreases s,
{
    Seq::new(
        s.len(),
        |i: int|
            if 0 <= i < s.len() {
                term(s[i])
            } else {
                Term::Nop
            },
    )
}

/// The model of a raw tree.
pub open spec fn term(e: Expression) -> Term
    decreases e,
{
    match e {
        Expression::Composition(v) => Term::Composition(terms(v@)),
        Expression::Concatenation(v) => Term::Concatenation(terms(v@)),
        Expression::Word(w) => Term::Word(w),
        Expression::Integer(i) => Term::Integer(i),
        Expression::Float(f) => Term::Float(f@),
        Expression::String(s) => Term::Text(s@),
        Expression::Quotation(q) => Term::Quotation(Box::new(term(*q))),
        Expression::Nop => Term::Nop,
        Expression::InfixLeft(e, op) => Term::InfixLeft(Box::new(term(*e)), Box::new(term(*op))),
        Expression::InfixRight(op, e) => Term::InfixRight(Box::new(term(*op)), Box::new(term(*e))),
    }
}

impl View for Expression {
    type V = Term;

    open spec fn view(&self) -> Term {
        term(*self)
    }
}

/// An annotated syntax tree: sequences, branches and words carry their arity.
#[derive(Debug, PartialEq)]
pub enum Arited {
    Composition(Vec<Arited>, Arity),
    Concatenation(Vec<Arited>, Arity),
    /// Pops a flag and runs the first tree on true, the second on false.
    Question(Box<Arited>, Box<Arited>, Arity),
    Word(Word, Arity),
    Integer(i64),
    Float(String),
    String(String),
    Quotation(Box<Arited>),
    /// `a1 a2 ... an -> a1 a2 ... an`
    IdN(u32),
}

/// The model of an annotated syntax tree, with unbounded effects.
pub enum Node {
    Composition(Seq<Node>, Effect),
    Concatenation(Seq<Node>, Effect),
    Question(Box<Node>, Box<Node>, Effect),
    Word(Word, Effect),
    Integer(i64),
    Float(Seq<char>),
    Text(Seq<char>),
    Quotation(Box<Node>),
    IdN(nat),
}

/// The models of a sequence of annotated trees.
pub open spec fn nodes(s: Seq<Arited>) -> Seq<Node>
    decreases s,
{
    Seq::new(
        s.len(),
        |i: int|
            if 0 <= i < s.len() {
                node(s[i])
            } else {
                Node::IdN(0)
            },
    )
}

/// The model of an annotated tree.
pub open spec fn node(a: Arited) -> Node
    decreases a,
{
    match a {
        Arited::Composition(v, ar) => Node::Composition(nodes(v@), ar@),
        Arited::Concatenation(v, ar) => Node::Concatenation(nodes(v@), ar@),
        Arited::Question(c, a, ar) => Node::Question(Box::new(node(*c)), Box::new(node(*a)), ar@),
        Arited::Word(w, ar) => Node::Word(w, ar@),
        Arited::Integer(i) => Node::Integer(i),
        Arited::Float(f) => Node::Float(f@),
        Arited::String(s) => Node::Text(s@),
        Arited::Quotation(q) => Node::Quotation(Box::new(node(*q))),
        Arited::IdN(n) => Node::IdN(n as nat),
    }
}

impl View for Arited {
    type V = Node;

    open spec fn view(&self) -> Node {
        node(*self)
    }
}

/// The effects of a sequence of annotated trees, in order.
pub open spec fn effects(c: Seq<Node>) -> Seq<Effect> {
    Seq::new(c.len(), |i: int| c[i].effect())
}

impl Node {
    /// The net stack effect of running the tree: what a sequence, a branch
    /// or a word is annotated with, `n` in and `n` out for `n` identity
    /// slots, and one value pushed for anything else.
    pub open spec fn effect(self) -> Effect {
        match self {
            Node::Composition(_, e) => e,
            Node::Concatenation(_, e) => e,
            Node::Question(_, _, e) => e,
            Node::Word(_, e) => e,
            Node::IdN(n) => Effect { inputs: n, outputs: n },
            _ => Effect::push(),
        }
    }

    /// How many values the tree needs on the stack to be run. Identity
    /// slots need none: they touch nothing, whatever they are counted as.
    pub open spec fn demand(self) -> nat {
        match self {
            Node::IdN(_) => 0,
            _ => self.effect().inputs,
        }
    }

    /// The effect that a branch between two trees of this effect has: the
    /// flag is consumed first.
    pub open spec fn branch_effect(self) -> Effect {
        Effect { inputs: self.effect().inputs + 1, outputs: self.effect().outputs }
    }

    /// Every annotation in the tree is the one that the arity rules give:
    /// a composition carries the pipeline of its children, a juxtaposition
    /// their sum, a word its fixed arity, and a branch has two arms of one
    /// arity and consumes the flag besides.
    pub open spec fn well_formed(self) -> bool
        decreases self,
    {
        match self {
            Node::Composition(c, e) => {
                &&& forall|i: int| 0 <= i < c.len() ==> (#[trigger] c[i]).well_formed()
                &&& e == pipeline(effects(c))
            },
            Node::Concatenation(c, e) => {
                &&& forall|i: int| 0 <= i < c.len() ==> (#[trigger] c[i]).well_formed()
                &&& e == abreast(effects(c))
            },
            Node::Question(c, a, e) => {
                &&& c.well_formed()
                &&& a.well_formed()
                &&& c.effect() == a.effect()
                &&& e == c.branch_effect()
            },
            Node::Word(w, e) => e == w.effect(),
            Node::Quotation(q) => q.well_formed(),
            _ => true,
        }
    }

    /// Every count in the tree can be held in 32 bits.
    pub open spec fn bounded(self) -> bool
        decreases self,
    {
        match self {
            Node::Composition(c, e) => {
                &&& forall|i: int| 0 <= i < c.len() ==> (#[trigger] c[i]).bounded()
                &&& e.fits()
            },
            Node::Concatenation(c, e) => {
                &&& forall|i: int| 0 <= i < c.len() ==> (#[trigger] c[i]).bounded()
                &&& e.fits()
            },
            Node::Question(c, a, e) => c.bounded() && a.bounded() && e.fits(),
            Node::Word(_, e) => e.fits(),
            Node::Quotation(q) => q.bounded(),
            Node::IdN(n) => n <= u32::MAX,
            _ => true,
        }
    }
}

/// The model of every annotated tree is bounded.
pub proof fn model_is_bounded(a: Arited)
    ensures
        a@.bounded(),
    decreases a,
{
    match a {
        Arited::Composition(v, ar) => {
            assert forall|i: int| 0 <= i < v@.len() implies (#[trigger] nodes(v@)[i]).bounded() by {
                model_is_bounded(v@[i]);
            }
            assert(a@ == Node::Composition(nodes(v@), ar@));
        },
        Arited::Concatenation(v, ar) => {
            assert forall|i: int| 0 <= i < v@.len() implies (#[trigger] nodes(v@)[i]).bounded() by {
                model_is_bounded(v@[i]);
            }
            assert(a@ == Node::Concatenation(nodes(v@), ar@));
        },
        Arited::Question(c, a, _) => {
            model_is_bounded(*c);
            model_is_bounded(*a);
        },
        Arited::Quotation(q) => {
            model_is_bounded(*q);
        },
        _ => {},
    }
}

impl Clone for Expression {
    /// An independent copy of the tree.
    fn clone(&self) -> (r: Expression)
        ensures
            r@ == self@,
        decreases self,
    {
        match self {
            Expression::Composition(v) => Expression::Composition(Expression::clone_all(v)),
            Expression::Concatenation(v) => Expression::Concatenation(Expression::clone_all(v)),
            Expression::Word(w) => Expression::Word(*w),
            Expression::Integer(i) => Expression::Integer(*i),
            Expression::Float(f) => Expression::Float(f.clone()),
            Expression::String(s) => Expression::String(s.clone()),
            Expression::Quotation(q) => Expression::Quotation(Box::new((**q).clone())),
            Expression::Nop => Expression::Nop,
            Expression::InfixLeft(e, op) => Expression::InfixLeft(
                Box::new((**e).clone()),
                Box::new((**op).clone()),
            ),
            Expression::InfixRight(op, e) => Expression::InfixRight(
                Box::new((**op).clone()),
                Box::new((**e).clone()),
            ),
        }
    }
}

impl Expression {
    /// Independent copies of the trees, in order.
    fn clone_all(v: &Vec<Expression>) -> (r: Vec<Expression>)
        ensures
            terms(r@) == terms(v@),
        decreases v,
    {
        let mut out: Vec<Expression> = Vec::new();
        let mut i: usize = 0;
        while i < v.len()
            invariant
                i <= v.len(),
                out.len() == i,
                forall|j: int| 0 <= j < i ==> (#[trigger] out[j])@ == v[j]@,
            decreases v.len() - i,
        {
            let c = v[i].clone();
            out.push(c);
            i += 1;
        }
        out
    }
}

impl Clone for Arited {
    /// An independent copy of the tree.
    fn clone(&self) -> (r: Arited)
        ensures
            r@ == self@,
        decreases self,
    {
        match self {
            Arited::Composition(v, ar) => Arited::Composition(Arited::clone_all(v), *ar),
            Arited::Concatenation(v, ar) => Arited::Concatenation(Arited::clone_all(v), *ar),
            Arited::Question(c, a, ar) => Arited::Question(
                Box::new((**c).clone()),
                Box::new((**a).clone()),
                *ar,
            ),
            Arited::Word(w, ar) => Arited::Word(*w, *ar),
            Arited::Integer(i) => Arited::Integer(*i),
            Arited::Float(f) => Arited::Float(f.clone()),
            Arited::String(s) => Arited::String(s.clone()),
            Arited::Quotation(q) => Arited::Quotation(Box::new((**q).clone())),
            Arited::IdN(n) => Arited::IdN(*n),
        }
    }
}

impl Arited {
    /// Independent copies of the trees, in order.
    fn clone_all(v: &Vec<Arited>) -> (r: Vec<Arited>)
        ensures
            nodes(r@) == nodes(v@),
        decreases v,
    {
        let mut out: Vec<Arited> = Vec::new();
        let mut i: usize = 0;
        while i < v.len()
            invariant
                i <= v.len(),
                out.len() == i,
                forall|j: int| 0 <= j < i ==> (#[trigger] out[j])@ == v[j]@,
            decreases v.len() - i,
        {
            let c = v[i].clone();
            out.push(c);
            i += 1;
        }
        out
    }

    /// How many values the tree needs on the stack to be run: the inputs of
    /// its arity, but none for identity slots.
    pub fn demand(&self) -> (r: u32)
        ensures
            r == self@.demand(),
    {
        match self {
            Arited::IdN(_) => 0,
            _ => self.arity().0,
        }
    }

    /// The arity of the tree.
    pub fn arity(&self) -> (r: Arity)
        ensures
            r@ == self@.effect(),
    {
        match self {
            Arited::Composition(_, ar) => *ar,
            Arited::Concatenation(_, ar) => *ar,
            Arited::Question(_, _, ar) => *ar,
            Arited::Word(_, ar) => *ar,
            Arited::IdN(n) => Arity(*n, *n),
            _ => Arity(0, 1),
        }
    }
}

} // verus!
