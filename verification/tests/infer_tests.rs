use obsc::arity::Arity;
use obsc::ast::{Arited, Expression};
use obsc::parser::parse;
use obsc::word::Word;

fn word(w: Word) -> Expression {
    Expression::Word(w)
}

#[test]
fn literals_push_one_value() {
    assert_eq!(Arited::from_expression(Expression::Integer(7)).arity(), Arity(0, 1));
    assert_eq!(Arited::from_expression(Expression::Float("1.5".to_string())).arity(), Arity(0, 1));
    assert_eq!(Arited::from_expression(Expression::String("a".to_string())).arity(), Arity(0, 1));
}

#[test]
fn a_quotation_pushes_one_value_whatever_its_body() {
    let quoted = Expression::Quotation(Box::new(word(Word::Plus)));
    let annotated = Arited::from_expression(quoted);
    assert_eq!(annotated, Arited::Quotation(Box::new(Arited::Word(Word::Plus, Arity(2, 1)))));
    assert_eq!(annotated.arity(), Arity(0, 1));
}

#[test]
fn a_no_op_becomes_zero_identity_slots() {
    let annotated = Arited::from_expression(Expression::Nop);
    assert_eq!(annotated, Arited::IdN(0));
    assert_eq!(annotated.arity(), Arity(0, 0));
}

#[test]
fn identity_slots_take_and_give_the_same() {
    assert_eq!(Arited::IdN(3).arity(), Arity(3, 3));
}

#[test]
fn a_juxtaposition_adds_the_arities() {
    let tree = Expression::Concatenation(vec![word(Word::Prod), word(Word::Dup), Expression::Integer(1)]);
    assert_eq!(Arited::from_expression(tree).arity(), Arity(3, 4));
}

#[test]
fn an_empty_sequence_does_nothing() {
    assert_eq!(
        Arited::from_expression(Expression::Composition(vec![])),
        Arited::Composition(vec![], Arity(0, 0))
    );
    assert_eq!(
        Arited::from_expression(Expression::Concatenation(vec![])),
        Arited::Concatenation(vec![], Arity(0, 0))
    );
}

#[test]
fn infix_left_pads_on_the_right() {
    // 1 `+` : the operand yields one value, plus needs two.
    let tree = Expression::InfixLeft(Box::new(Expression::Integer(1)), Box::new(word(Word::Plus)));
    assert_eq!(
        Arited::from_expression(tree),
        Arited::Composition(
            vec![
                Arited::Concatenation(vec![Arited::Integer(1), Arited::IdN(1)], Arity(1, 2)),
                Arited::Word(Word::Plus, Arity(2, 1)),
            ],
            Arity(1, 1)
        )
    );
}

#[test]
fn infix_right_pads_on_the_left() {
    let tree = Expression::InfixRight(Box::new(word(Word::Minus)), Box::new(Expression::Integer(1)));
    assert_eq!(
        Arited::from_expression(tree),
        Arited::Composition(
            vec![
                Arited::Concatenation(vec![Arited::IdN(1), Arited::Integer(1)], Arity(1, 2)),
                Arited::Word(Word::Minus, Arity(2, 1)),
            ],
            Arity(1, 1)
        )
    );
}

#[test]
fn infix_needs_no_padding_when_the_operand_yields_enough() {
    let operand = Expression::Composition(vec![Expression::Integer(1), Expression::Integer(2)]);
    let tree = Expression::InfixLeft(Box::new(operand), Box::new(word(Word::Plus)));
    match Arited::from_expression(tree) {
        Arited::Composition(children, arity) => {
            assert_eq!(arity, Arity(0, 1));
            match &children[0] {
                Arited::Concatenation(pair, side) => {
                    assert_eq!(pair[1], Arited::IdN(0));
                    assert_eq!(*side, Arity(0, 2));
                }
                other => panic!("not a juxtaposition: {:?}", other),
            }
        }
        other => panic!("not a composition: {:?}", other),
    }
}

#[test]
fn infix_id_counts_the_missing_operands() {
    let plus = Arited::Word(Word::Plus, Arity(2, 1));
    assert_eq!(Arited::infix_id(&plus, &Arited::Integer(1)), Arited::IdN(1));
    assert_eq!(Arited::infix_id(&plus, &Arited::IdN(0)), Arited::IdN(2));
    assert_eq!(Arited::infix_id(&plus, &Arited::IdN(5)), Arited::IdN(0));
}

#[test]
fn a_tree_without_words_yields_one_value_per_leaf() {
    let tree = Expression::Composition(vec![
        Expression::Integer(1),
        Expression::Concatenation(vec![
            Expression::String("x".to_string()),
            Expression::Quotation(Box::new(word(Word::Plus))),
            Expression::Nop,
        ]),
        Expression::InfixLeft(Box::new(Expression::Integer(2)), Box::new(Expression::Integer(3))),
        Expression::Float("2.5".to_string()),
    ]);
    assert_eq!(Arited::from_expression(tree).arity(), Arity(0, 6));
}

#[test]
fn checked_inference_agrees_on_small_trees() {
    let tree = Expression::Composition(vec![word(Word::Prod), word(Word::Print)]);
    assert_eq!(
        Arited::checked_from_expression(tree),
        Some(Arited::Composition(
            vec![Arited::Word(Word::Prod, Arity(2, 1)), Arited::Word(Word::Print, Arity(1, 0))],
            Arity(2, 0)
        ))
    );
}

#[test]
fn inference_yields_well_formed_trees() {
    let tree = Expression::Composition(vec![
        Expression::Integer(2),
        Expression::InfixRight(Box::new(word(Word::Prod)), Box::new(Expression::Integer(3))),
        Expression::Quotation(Box::new(Expression::Concatenation(vec![word(Word::Dup), word(Word::Drop)]))),
        word(Word::Drop),
    ]);
    assert!(Arited::from_expression(tree).is_well_formed());
}

#[test]
fn a_wrong_annotation_is_found() {
    assert!(!Arited::Word(Word::Plus, Arity(1, 1)).is_well_formed());
    assert!(!Arited::Composition(vec![Arited::Integer(1)], Arity(0, 2)).is_well_formed());
    assert!(!Arited::Concatenation(vec![Arited::Integer(1)], Arity(1, 1)).is_well_formed());
    assert!(!Arited::Quotation(Box::new(Arited::Word(Word::Dup, Arity(2, 1)))).is_well_formed());
    assert!(Arited::Composition(vec![Arited::Integer(1)], Arity(0, 1)).is_well_formed());
}

#[test]
fn a_composition_may_rise_above_its_end() {
    // Three values are pushed and dropped again: the running height is
    // above the final one.
    let tree = Arited::Composition(
        vec![
            Arited::Integer(1),
            Arited::Integer(2),
            Arited::Integer(3),
            Arited::Word(Word::Drop, Arity(1, 0)),
            Arited::Word(Word::Drop, Arity(1, 0)),
            Arited::Word(Word::Drop, Arity(1, 0)),
        ],
        Arity(0, 0),
    );
    assert!(tree.is_well_formed());
}

#[test]
fn a_branch_needs_arms_of_one_arity() {
    let plus = Arited::Word(Word::Plus, Arity(2, 1));
    let minus = Arited::Word(Word::Minus, Arity(2, 1));
    let dup = Arited::Word(Word::Dup, Arity(1, 2));
    assert_eq!(
        Arited::question(plus.clone(), minus.clone()),
        Some(Arited::Question(Box::new(plus.clone()), Box::new(minus), Arity(3, 1)))
    );
    assert_eq!(Arited::question(plus, dup), None);
}

#[test]
fn a_branch_is_well_formed_when_it_counts_the_flag() {
    let one = Arited::Integer(1);
    let two = Arited::Integer(2);
    assert!(Arited::question(one.clone(), two.clone()).unwrap().is_well_formed());
    assert!(!Arited::Question(Box::new(one), Box::new(two), Arity(0, 1)).is_well_formed());
}

#[test]
fn a_clone_is_equal_to_what_it_copies() {
    let tree = Arited::from_expression(Expression::Composition(vec![
        Expression::String("text".to_string()),
        Expression::Quotation(Box::new(word(Word::Rec))),
        Expression::Concatenation(vec![word(Word::Id), Expression::Float("0.5".to_string())]),
    ]));
    assert_eq!(tree.clone(), tree);
}

#[test]
fn test_simple() {
    let expr = Arited::from_expression(parse("×⎕".into()).unwrap());
    assert_eq!(
        expr,
        Arited::Composition(
            vec![
                Arited::Word(Word::Prod, Arity(2, 1)),
                Arited::Word(Word::Print, Arity(1, 0))
            ],
            Arity(2, 0)
        )
    );
}

#[test]
fn test_infix() {
    let expr = Arited::from_expression(parse("×`+`×".into()).unwrap());
    assert_eq!(
        expr,
        Arited::Composition(
            vec![
                Arited::Concatenation(
                    vec![
                        Arited::Word(Word::Prod, Arity(2, 1)),
                        Arited::Word(Word::Prod, Arity(2, 1))
                    ],
                    Arity(4, 2)
                ),
                Arited::Word(Word::Plus, Arity(2, 1))
            ],
            Arity(4, 1)
        )
    );
}

#[test]
fn test_zero() {
    let expr = Arited::from_expression(parse("2 2 3 3 ×`+`×⎕".into()).unwrap());
    match expr {
        Arited::Composition(_, Arity(0, 0)) => (),
        _ => panic!("Expr is not composition of arity null: {:?}", expr),
    }
}
