//! The arity-inference pass: from a raw tree to its annotated tree.

use crate::arity::{abreast, pipeline, shortfall, Arity, Effect};
use crate::ast::{effects, model_is_bounded, nodes, term, terms, Arited, Expression, Node, Term};
use crate::word::word_arity;
use vstd::prelude::*;

verus! {

/// The identity slots that balance an infix operator against its operand:
/// as many as the operator needs beyond what the operand yields.
pub open spec fn padding(op: Node, operand: Node) -> Node {
    Node::IdN(shortfall(op.effect().inputs, operand.effect().outputs))
}

/// The point-free form of an infix application: the operand and the padding
/// side by side, the operand on the left when `left`, piped into the operator.
pub open spec fn infix(operand: Node, op: Node, left: bool) -> Node {
    let pad = padding(op, operand);
    let side = if left {
        operand.effect().concat(pad.effect())
    } else {
        pad.effect().concat(operand.effect())
    };
    let pair = if left {
        seq![operand, pad]
    } else {
        seq![pad, operand]
    };
    Node::Composition(seq![Node::Concatenation(pair, side), op], side.compose(op.effect()))
}

/// The annotated trees of a sequence of raw trees.
pub open spec fn annotate_all(s: Seq<Term>) -> Seq<Node>
    decreases s,
{
    Seq::new(
        s.len(),
        |i: int|
            if 0 <= i < s.len() {
                annotate(s[i])
            } else {
                Node::IdN(0)
            },
    )
}

/// The annotated tree of a raw tree.
///
/// A composition folds the effects of its children with `compose`, a
/// juxtaposition with `concat`, both from the empty effect. A word gets its
/// fixed arity; a literal or a quotation stays a leaf; a no-op becomes zero
/// identity slots; the infix forms are rewritten by `infix`.
pub open spec fn annotate(t: Term) -> Node
    decreases t,
{
    match t {
        Term::Composition(v) => {
            let c = annotate_all(v);
            Node::Composition(c, pipeline(effects(c)))
        },
        Term::Concatenation(v) => {
            let c = annotate_all(v);
            Node::Concatenation(c, abreast(effects(c)))
        },
        Term::InfixLeft(e, op) => infix(annotate(*e), annotate(*op), true),
        Term::InfixRight(op, e) => infix(annotate(*e), annotate(*op), false),
        Term::Word(w) => Node::Word(w, w.effect()),
        Term::Quotation(q) => Node::Quotation(Box::new(annotate(*q))),
        Term::Integer(i) => Node::Integer(i),
        Term::Float(f) => Node::Float(f),
        Term::Text(s) => Node::Text(s),
        Term::Nop => Node::IdN(0),
    }
}

/// The effect of a bounded tree fits in 32 bits.
pub proof fn bounded_effect_fits(n: Node)
    requires
        n.bounded(),
    ensures
        n.effect().fits(),
{
}

/// A sequence node is bounded exactly when its children are and its
/// annotation fits in 32 bits.
pub proof fn sequence_bounded(c: Seq<Node>, e: Effect)
    ensures
        Node::Composition(c, e).bounded() <==> e.fits() && forall|i: int|
            0 <= i < c.len() ==> (#[trigger] c[i]).bounded(),
        Node::Concatenation(c, e).bounded() <==> e.fits() && forall|i: int|
            0 <= i < c.len() ==> (#[trigger] c[i]).bounded(),
{
    let piped = Node::Composition(c, e);
    assert(piped->Composition_0 == c);
    let sided = Node::Concatenation(c, e);
    assert(sided->Concatenation_0 == c);
}

/// The point-free form of an infix application is bounded exactly when both
/// trees are and the two effects computed on the way fit in 32 bits.
pub proof fn infix_bounded(operand: Node, op: Node, left: bool)
    ensures
        infix(operand, op, left).bounded() <==> {
            let pad = padding(op, operand);
            let side = if left {
                operand.effect().concat(pad.effect())
            } else {
                pad.effect().concat(operand.effect())
            };
            &&& operand.bounded()
            &&& op.bounded()
            &&& side.fits()
            &&& side.compose(op.effect()).fits()
        },
{
    let pad = padding(op, operand);
    let side = if left {
        operand.effect().concat(pad.effect())
    } else {
        pad.effect().concat(operand.effect())
    };
    let pair = if left {
        seq![operand, pad]
    } else {
        seq![pad, operand]
    };
    let inner = Node::Concatenation(pair, side);
    let outer = seq![inner, op];
    sequence_bounded(pair, side);
    sequence_bounded(outer, side.compose(op.effect()));
    if operand.bounded() && op.bounded() && side.fits() && side.compose(op.effect()).fits() {
        bounded_effect_fits(op);
    }
}

/// The pipeline of two effects is their composition, and two effects side by
/// side are their sum.
pub proof fn fold_of_two(a: Effect, b: Effect)
    ensures
        pipeline(seq![a, b]) == a.compose(b),
        abreast(seq![a, b]) == a.concat(b),
{
    reveal_with_fuel(pipeline, 3);
    reveal_with_fuel(abreast, 3);
}

/// Inference yields a well-formed tree.
pub proof fn annotate_well_formed(t: Term)
    ensures
        annotate(t).well_formed(),
    decreases t,
{
    match t {
        Term::Composition(v) => {
            let c = annotate_all(v);
            assert forall|i: int| 0 <= i < c.len() implies (#[trigger] c[i]).well_formed() by {
                annotate_well_formed(v[i]);
            }
        },
        Term::Concatenation(v) => {
            let c = annotate_all(v);
            assert forall|i: int| 0 <= i < c.len() implies (#[trigger] c[i]).well_formed() by {
                annotate_well_formed(v[i]);
            }
        },
        Term::InfixLeft(e, op) => {
            annotate_well_formed(*e);
            annotate_well_formed(*op);
            infix_well_formed(annotate(*e), annotate(*op), true);
        },
        Term::InfixRight(op, e) => {
            annotate_well_formed(*e);
            annotate_well_formed(*op);
            infix_well_formed(annotate(*e), annotate(*op), false);
        },
        Term::Quotation(q) => {
            annotate_well_formed(*q);
        },
        _ => {},
    }
}

/// The point-free form of an infix application of well-formed trees is
/// well-formed.
pub proof fn infix_well_formed(operand: Node, op: Node, left: bool)
    requires
        operand.well_formed(),
        op.well_formed(),
    ensures
        infix(operand, op, left).well_formed(),
{
    let pad = padding(op, operand);
    let side = if left {
        operand.effect().concat(pad.effect())
    } else {
        pad.effect().concat(operand.effect())
    };
    let pair = if left {
        seq![operand, pad]
    } else {
        seq![pad, operand]
    };
    let inner = Node::Concatenation(pair, side);
    let outer = seq![inner, op];
    assert(effects(pair) =~= seq![pair[0].effect(), pair[1].effect()]);
    assert(effects(outer) =~= seq![side, op.effect()]);
    fold_of_two(pair[0].effect(), pair[1].effect());
    fold_of_two(side, op.effect());
    assert(pad.well_formed());
    assert(inner.well_formed());
}

/// No word stands in the tree outside of its quotations.
pub open spec fn wordless(t: Term) -> bool
    decreases t,
{
    match t {
        Term::Composition(v) => forall|i: int| 0 <= i < v.len() ==> wordless(#[trigger] v[i]),
        Term::Concatenation(v) => forall|i: int| 0 <= i < v.len() ==> wordless(#[trigger] v[i]),
        Term::Word(_) => false,
        Term::InfixLeft(e, op) => wordless(*e) && wordless(*op),
        Term::InfixRight(op, e) => wordless(*e) && wordless(*op),
        _ => true,
    }
}

/// The number of literals and quotations in the trees of a sequence.
pub open spec fn leaves_of_all(s: Seq<Term>) -> nat
    decreases s, s.len(),
{
    if s.len() == 0 {
        0
    } else {
        leaves_of_all(s.drop_last()) + leaves(s.last())
    }
}

/// The number of literals and quotations in the tree; what is inside a
/// quotation does not count.
pub open spec fn leaves(t: Term) -> nat
    decreases t,
{
    match t {
        Term::Composition(v) => leaves_of_all(v),
        Term::Concatenation(v) => leaves_of_all(v),
        Term::Word(_) => 0,
        Term::Nop => 0,
        Term::InfixLeft(e, op) => leaves(*e) + leaves(*op),
        Term::InfixRight(op, e) => leaves(*e) + leaves(*op),
        _ => 1,
    }
}

/// A tree without words takes nothing from the stack, and leaves one value
/// for each of its literals and quotations.
pub proof fn wordless_effect(t: Term)
    requires
        wordless(t),
    ensures
        annotate(t).effect() == Effect::new(0, leaves(t)),
    decreases t, 0nat,
{
    match t {
        Term::Composition(v) => {
            wordless_sequence(v, v.len());
            assert(v.take(v.len() as int) =~= v);
        },
        Term::Concatenation(v) => {
            wordless_sequence(v, v.len());
            assert(v.take(v.len() as int) =~= v);
        },
        Term::InfixLeft(e, op) => {
            wordless_effect(*e);
            wordless_effect(*op);
        },
        Term::InfixRight(op, e) => {
            wordless_effect(*e);
            wordless_effect(*op);
        },
        _ => {},
    }
}

/// The first `k` trees of a sequence without words, in a pipeline or side by
/// side, take nothing and leave one value for each literal and quotation.
pub proof fn wordless_sequence(v: Seq<Term>, k: nat)
    requires
        k <= v.len(),
        forall|i: int| 0 <= i < v.len() ==> wordless(#[trigger] v[i]),
    ensures
        pipeline(effects(annotate_all(v.take(k as int)))) == Effect::new(0, leaves_of_all(v.take(k as int))),
        abreast(effects(annotate_all(v.take(k as int)))) == Effect::new(0, leaves_of_all(v.take(k as int))),
    decreases v, k,
{
    let front = v.take(k as int);
    let all = effects(annotate_all(front));
    if k > 0 {
        wordless_sequence(v, (k - 1) as nat);
        wordless_effect(v[k - 1]);
        assert(front.drop_last() =~= v.take(k - 1));
        assert(all.drop_last() =~= effects(annotate_all(v.take(k - 1))));
    }
}

/// The pipeline of the children's arities, in integers wide enough for any
/// number of children.
fn pipeline_of(children: &Vec<Arited>) -> (r: (u128, u128))
    ensures
        Effect::new(r.0 as nat, r.1 as nat) == pipeline(effects(nodes(children@))),
{
    let mut ins: u128 = 0;
    let mut outs: u128 = 0;
    let mut i: usize = 0;
    let ghost all = effects(nodes(children@));
    while i < children.len()
        invariant
            i <= children.len(),
            all == effects(nodes(children@)),
            ins <= i * 0xFFFF_FFFF,
            outs <= i * 0xFFFF_FFFF,
            Effect::new(ins as nat, outs as nat) == pipeline(all.take(i as int)),
        decreases children.len() - i,
    {
        let ar: Arity = children[i].arity();
        proof {
            assert(all.take(i + 1).drop_last() =~= all.take(i as int));
        }
        let need: u128 = ar.0 as u128;
        let give: u128 = ar.1 as u128;
        let short: u128 = if need > outs {
            need - outs
        } else {
            0
        };
        let spare: u128 = if outs > need {
            outs - need
        } else {
            0
        };
        ins = ins + short;
        outs = give + spare;
        i += 1;
    }
    assert(all.take(i as int) =~= all);
    (ins, outs)
}

/// The sum of the children's arities, in integers wide enough for any number
/// of children.
fn abreast_of(children: &Vec<Arited>) -> (r: (u128, u128))
    ensures
        Effect::new(r.0 as nat, r.1 as nat) == abreast(effects(nodes(children@))),
{
    let mut ins: u128 = 0;
    let mut outs: u128 = 0;
    let mut i: usize = 0;
    let ghost all = effects(nodes(children@));
    while i < children.len()
        invariant
            i <= children.len(),
            all == effects(nodes(children@)),
            ins <= i * 0xFFFF_FFFF,
            outs <= i * 0xFFFF_FFFF,
            Effect::new(ins as nat, outs as nat) == abreast(all.take(i as int)),
        decreases children.len() - i,
    {
        let ar: Arity = children[i].arity();
        proof {
            assert(all.take(i + 1).drop_last() =~= all.take(i as int));
        }
        ins = ins + ar.0 as u128;
        outs = outs + ar.1 as u128;
        i += 1;
    }
    assert(all.take(i as int) =~= all);
    (ins, outs)
}

/// The arity that a pair of wide counts stands for, if both fit.
fn narrow(wide: (u128, u128)) -> (r: Option<Arity>)
    ensures
        r is Some <==> Effect::new(wide.0 as nat, wide.1 as nat).fits(),
        r matches Some(a) ==> a@ == Effect::new(wide.0 as nat, wide.1 as nat),
{
    if wide.0 <= 0xFFFF_FFFF && wide.1 <= 0xFFFF_FFFF {
        Some(Arity(wide.0 as u32, wide.1 as u32))
    } else {
        None
    }
}

/// Annotates every tree of a sequence, keeping the order; `None` when one of
/// them has no bounded annotated tree.
fn annotate_each(v: Vec<Expression>) -> (r: Option<Vec<Arited>>)
    ensures
        r is Some <==> forall|i: int| 0 <= i < v@.len() ==> (#[trigger] annotate_all(terms(v@))[i]).bounded(),
        r matches Some(c) ==> nodes(c@) == annotate_all(terms(v@)),
    decreases v,
{
    let ghost whole = v;
    let ghost goal = annotate_all(terms(v@));
    let mut rest = v;
    let mut reversed: Vec<Arited> = Vec::new();
    while rest.len() > 0
        invariant
            whole == v,
            goal == annotate_all(terms(whole@)),
            rest@ == whole@.take(rest.len() as int),
            rest.len() <= whole.len(),
            reversed.len() == whole.len() - rest.len(),
            forall|j: int|
                0 <= j < reversed.len() ==> (#[trigger] reversed[j])@ == goal[whole.len() - 1 - j],
        decreases rest.len(),
    {
        let ghost k = rest.len() - 1;
        let e = rest.pop().unwrap();
        match Arited::checked_from_expression(e) {
            Some(a) => {
                reversed.push(a);
            },
            None => {
                assert(!goal[k].bounded());
                return None;
            },
        }
    }
    let ghost turned = reversed@;
    let mut out: Vec<Arited> = Vec::new();
    while reversed.len() > 0
        invariant
            goal.len() == whole.len(),
            turned.len() == whole.len(),
            reversed@ == turned.take(reversed.len() as int),
            reversed.len() <= turned.len(),
            out.len() == turned.len() - reversed.len(),
            forall|j: int| 0 <= j < turned.len() ==> (#[trigger] turned[j])@ == goal[whole.len() - 1 - j],
            forall|j: int| 0 <= j < out.len() ==> (#[trigger] out[j])@ == goal[j],
        decreases reversed.len(),
    {
        let a = reversed.pop().unwrap();
        out.push(a);
    }
    proof {
        assert forall|i: int| 0 <= i < goal.len() implies (#[trigger] goal[i]).bounded() by {
            model_is_bounded(out[i]);
        }
    }
    Some(out)
}

impl Arited {
    /// Annotates a raw tree whose annotated tree is bounded. The result is
    /// well-formed.
    pub fn from_expression(e: Expression) -> (r: Arited)
        requires
            annotate(e@).bounded(),
        ensures
            r@ == annotate(e@),
            r@.well_formed(),
    {
        proof {
            annotate_well_formed(e@);
        }
        match Arited::checked_from_expression(e) {
            Some(a) => a,
            None => vstd::pervasive::unreached(),
        }
    }

    /// Annotates a raw tree; `None` exactly when a count of its annotated
    /// tree exceeds 32 bits. The result is well-formed.
    pub fn checked_from_expression(e: Expression) -> (r: Option<Arited>)
        ensures
            r is Some <==> annotate(e@).bounded(),
            r matches Some(a) ==> a@ == annotate(e@) && a@.well_formed(),
        decreases e,
    {
        proof {
            annotate_well_formed(e@);
        }
        match e {
            Expression::Composition(v) => {
                let ghost goal = annotate_all(terms(v@));
                proof {
                    sequence_bounded(goal, pipeline(effects(goal)));
                }
                match annotate_each(v) {
                    Some(comp) => {
                        match narrow(pipeline_of(&comp)) {
                            Some(arity) => Some(Arited::Composition(comp, arity)),
                            None => None,
                        }
                    },
                    None => None,
                }
            },
            Expression::Concatenation(v) => {
                let ghost goal = annotate_all(terms(v@));
                proof {
                    sequence_bounded(goal, abreast(effects(goal)));
                }
                match annotate_each(v) {
                    Some(conc) => {
                        match narrow(abreast_of(&conc)) {
                            Some(arity) => Some(Arited::Concatenation(conc, arity)),
                            None => None,
                        }
                    },
                    None => None,
                }
            },
            Expression::InfixLeft(e, op) => {
                proof {
                    infix_bounded(annotate(term(*e)), annotate(term(*op)), true);
                }
                let operand = match Arited::checked_from_expression(*e) {
                    Some(a) => a,
                    None => {
                        return None;
                    },
                };
                let op = match Arited::checked_from_expression(*op) {
                    Some(a) => a,
                    None => {
                        return None;
                    },
                };
                Arited::desugar(operand, op, true)
            },
            Expression::InfixRight(op, e) => {
                proof {
                    infix_bounded(annotate(term(*e)), annotate(term(*op)), false);
                }
                let operand = match Arited::checked_from_expression(*e) {
                    Some(a) => a,
                    None => {
                        return None;
                    },
                };
                let op = match Arited::checked_from_expression(*op) {
                    Some(a) => a,
                    None => {
                        return None;
                    },
                };
                Arited::desugar(operand, op, false)
            },
            Expression::Word(w) => {
                let ar = word_arity(&w);
                Some(Arited::Word(w, ar))
            },
            Expression::Quotation(q) => {
                match Arited::checked_from_expression(*q) {
                    Some(body) => Some(Arited::Quotation(Box::new(body))),
                    None => None,
                }
            },
            Expression::Integer(i) => Some(Arited::Integer(i)),
            Expression::Float(f) => Some(Arited::Float(f)),
            Expression::String(s) => Some(Arited::String(s)),
            Expression::Nop => Some(Arited::IdN(0)),
        }
    }

    /// Rewrites an infix application into point-free form; `None` exactly
    /// when a count of the result exceeds 32 bits.
    fn desugar(operand: Arited, op: Arited, left: bool) -> (r: Option<Arited>)
        ensures
            r is Some <==> infix(operand@, op@, left).bounded(),
            r matches Some(a) ==> a@ == infix(operand@, op@, left),
    {
        proof {
            model_is_bounded(operand);
            model_is_bounded(op);
            infix_bounded(operand@, op@, left);
        }
        let id_n = Arited::infix_id(&op, &operand);
        let side = if left {
            operand.arity().checked_concat(id_n.arity())
        } else {
            id_n.arity().checked_concat(operand.arity())
        };
        let conc_ar = match side {
            Some(ar) => ar,
            None => {
                return None;
            },
        };
        let comp_ar = match conc_ar.checked_compose(op.arity()) {
            Some(ar) => ar,
            None => {
                return None;
            },
        };
        let ghost pair = if left {
            seq![operand@, id_n@]
        } else {
            seq![id_n@, operand@]
        };
        let mut conc: Vec<Arited> = Vec::new();
        if left {
            conc.push(operand);
            conc.push(id_n);
        } else {
            conc.push(id_n);
            conc.push(operand);
        }
        assert(nodes(conc@) =~= pair);
        let inner = Arited::Concatenation(conc, conc_ar);
        let ghost both = seq![inner@, op@];
        let mut comp: Vec<Arited> = Vec::new();
        comp.push(inner);
        comp.push(op);
        assert(nodes(comp@) =~= both);
        Some(Arited::Composition(comp, comp_ar))
    }

    /// A branch between two trees of one arity; `None` when their arities
    /// differ or the branch would consume more than 32 bits can count.
    pub fn question(cons: Arited, alter: Arited) -> (r: Option<Arited>)
        ensures
            r is Some <==> cons@.effect() == alter@.effect() && cons@.branch_effect().fits(),
            r matches Some(a) ==> a@ == Node::Question(
                Box::new(cons@),
                Box::new(alter@),
                cons@.branch_effect(),
            ),
    {
        let ar = cons.arity();
        if ar == alter.arity() && ar.0 < 0xFFFF_FFFF {
            Some(Arited::Question(Box::new(cons), Box::new(alter), Arity(ar.0 + 1, ar.1)))
        } else {
            None
        }
    }

    /// Whether every annotation in the tree is the one that the arity rules
    /// give.
    pub fn is_well_formed(&self) -> (r: bool)
        ensures
            r == self@.well_formed(),
        decreases self,
    {
        match self {
            Arited::Composition(v, ar) => {
                if !Arited::all_well_formed(v) {
                    return false;
                }
                let wide = pipeline_of(v);
                wide.0 == ar.0 as u128 && wide.1 == ar.1 as u128
            },
            Arited::Concatenation(v, ar) => {
                if !Arited::all_well_formed(v) {
                    return false;
                }
                let wide = abreast_of(v);
                wide.0 == ar.0 as u128 && wide.1 == ar.1 as u128
            },
            Arited::Question(c, a, ar) => {
                let inner = c.arity();
                c.is_well_formed() && a.is_well_formed() && inner == a.arity() && ar.1 == inner.1
                    && ar.0 as u64 == inner.0 as u64 + 1
            },
            Arited::Word(w, ar) => *ar == word_arity(w),
            Arited::Quotation(q) => q.is_well_formed(),
            _ => true,
        }
    }

    /// Whether every tree of the sequence is well-formed.
    fn all_well_formed(v: &Vec<Arited>) -> (r: bool)
        ensures
            r == forall|i: int| 0 <= i < v@.len() ==> (#[trigger] nodes(v@)[i]).well_formed(),
        decreases v,
    {
        let mut i: usize = 0;
        while i < v.len()
            invariant
                i <= v.len(),
                forall|j: int| 0 <= j < i ==> (#[trigger] nodes(v@)[j]).well_formed(),
            decreases v.len() - i,
        {
            if !v[i].is_well_formed() {
                assert(!nodes(v@)[i as int].well_formed());
                return false;
            }
            i += 1;
        }
        true
    }

    /// The identity slots that balance the operator `infix` against `expr`.
    pub fn infix_id(infix: &Arited, expr: &Arited) -> (r: Arited)
        ensures
            r@ == padding(infix@, expr@),
    {
        let ar_inf = infix.arity();
        let ar_exp = expr.arity();
        let n: u32 = if ar_inf.0 > ar_exp.1 {
            ar_inf.0 - ar_exp.1
        } else {
            0
        };
        Arited::IdN(n)
    }
}

} // verus!
