use obsc::arity::Arity;
use obsc::ast::{Arited, Expression};
use obsc::eval::{Error, Machine, Request, Signal};
use obsc::parser::parse;
use obsc::value::Data;
use obsc::word::Word;
use std::collections::VecDeque;

fn word(w: Word) -> Expression {
    Expression::Word(w)
}

fn num(i: i64) -> Expression {
    Expression::Integer(i)
}

fn float(text: &str) -> Expression {
    Expression::Float(text.to_string())
}

fn quote(e: Expression) -> Expression {
    Expression::Quotation(Box::new(e))
}

fn program(children: Vec<Expression>) -> Arited {
    Arited::from_expression(Expression::Composition(children))
}

/// Plays the host of the machine to the end of the run: writes go to
/// `out`, and floats are computed here.
fn finish(machine: &mut Machine, first: Signal, out: &mut String) -> Result<(), Error> {
    let mut signal = first;
    loop {
        match signal {
            Signal::Done => return Ok(()),
            Signal::Failed(e) => return Err(e),
            Signal::Continue => {}
            Signal::Write(text) => out.push_str(&text),
            Signal::WriteFloat(bits) => out.push_str(&format!("{}", f64::from_bits(bits))),
            Signal::Literal(text) => {
                let v: f64 = text.parse().unwrap();
                machine.supply_float(v.to_bits());
            }
            Signal::Arithmetic(w, l, r) => {
                let (l, r) = (f64::from_bits(l), f64::from_bits(r));
                let v = match w {
                    Word::Plus => l + r,
                    Word::Minus => l - r,
                    Word::Prod => l * r,
                    Word::Div => l / r,
                    _ => unreachable!(),
                };
                machine.supply_float(v.to_bits());
            }
            Signal::Comparison(w, l, r) => {
                let (l, r) = (f64::from_bits(l), f64::from_bits(r));
                let v = match w {
                    Word::Gt => l > r,
                    Word::Eq => l == r,
                    Word::Lt => l < r,
                    _ => unreachable!(),
                };
                machine.supply_bool(v);
            }
        }
        signal = machine.run(64);
    }
}

/// Runs a program on a fresh machine; the stack in the end and what was
/// written, or the failure.
fn run(tree: &Arited) -> Result<(Vec<Data>, String), Error> {
    let mut machine = Machine::new();
    let mut out = String::new();
    assert!(tree.is_well_formed());
    let first = machine.execute_program(tree, 64);
    let end = finish(&mut machine, first, &mut out);
    // Nothing is retained after a run, however it ended.
    assert!(machine.retained().is_empty());
    end?;
    assert!(machine.is_idle());
    let stack: Vec<Data> = machine.stack().iter().map(|d| d.clone()).collect();
    Ok((stack, out))
}

fn stack_of(children: Vec<Expression>) -> Vec<Data> {
    run(&program(children)).unwrap().0
}

fn failure_of(children: Vec<Expression>) -> Error {
    run(&program(children)).unwrap_err()
}

#[test]
fn two_and_two_make_four() {
    assert_eq!(stack_of(vec![num(2), num(2), word(Word::Plus)]), vec![Data::Integer(4)]);
}

#[test]
fn a_list_is_built_and_beheaded() {
    let stack = stack_of(vec![
        word(Word::Zilde),
        num(1),
        word(Word::Comma),
        num(2),
        word(Word::Comma),
        word(Word::Behead),
    ]);
    assert_eq!(stack, vec![Data::Integer(1), Data::List(VecDeque::from(vec![Data::Integer(2)]))]);
}

#[test]
fn a_loop_refuses_a_quotation_of_another_arity() {
    for seed in [num(0), num(5), float("1.5"), Expression::String("seed".to_string()), word(Word::Zilde)] {
        // The body pushes a value and consumes none.
        assert_eq!(failure_of(vec![seed.clone(), quote(num(2)), word(Word::Rec)]), Error::ArityError);
        // The body consumes one value and leaves one: no flag.
        assert_eq!(failure_of(vec![seed, quote(word(Word::Id)), word(Word::Rec)]), Error::ArityError);
    }
}

#[test]
fn a_refused_loop_runs_nothing() {
    // The body would print if it ran.
    let body = Expression::Composition(vec![word(Word::Print), num(1), num(2), num(3)]);
    let tree = program(vec![num(5), quote(body), word(Word::Rec)]);
    let mut machine = Machine::new();
    let mut out = String::new();
    let first = machine.execute_program(&tree, 64);
    assert_eq!(finish(&mut machine, first, &mut out), Err(Error::ArityError));
    assert_eq!(out, "");
    assert_eq!(machine.failure(), Some(Error::ArityError));
}

#[test]
fn printing_an_integer_writes_its_digits() {
    let (stack, out) = run(&program(vec![num(42), word(Word::Print)])).unwrap();
    assert_eq!(out, "42");
    assert_eq!(stack, vec![]);
}

#[test]
fn printing_takes_exactly_one_value() {
    let (stack, out) = run(&program(vec![num(7), num(42), word(Word::Print)])).unwrap();
    assert_eq!(out, "42");
    assert_eq!(stack, vec![Data::Integer(7)]);
}

#[test]
fn printing_writes_each_printable_kind() {
    let (_, out) = run(&program(vec![
        num(-17),
        word(Word::Print),
        num(0),
        word(Word::Print),
        num(i64::MIN),
        word(Word::Print),
        num(i64::MAX),
        word(Word::Print),
        Expression::String(" text ".to_string()),
        word(Word::Print),
        num(1),
        num(2),
        word(Word::Lt),
        word(Word::Print),
        num(1),
        num(2),
        word(Word::Gt),
        word(Word::Print),
        float("2.5"),
        word(Word::Print),
    ]))
    .unwrap();
    assert_eq!(out, "-170-92233720368547758089223372036854775807 text truefalse2.5");
}

#[test]
fn printing_a_list_or_a_quotation_fails() {
    assert_eq!(failure_of(vec![word(Word::Zilde), word(Word::Print)]), Error::PrintError);
    assert_eq!(failure_of(vec![quote(num(1)), word(Word::Print)]), Error::PrintError);
}

#[test]
fn integers_are_compared_left_to_right() {
    assert_eq!(stack_of(vec![num(3), num(2), word(Word::Gt)]), vec![Data::Bool(true)]);
    assert_eq!(stack_of(vec![num(3), num(2), word(Word::Lt)]), vec![Data::Bool(false)]);
    assert_eq!(stack_of(vec![num(3), num(2), word(Word::Eq)]), vec![Data::Bool(false)]);
    assert_eq!(stack_of(vec![num(2), num(2), word(Word::Eq)]), vec![Data::Bool(true)]);
}

#[test]
fn integers_are_computed_left_to_right() {
    assert_eq!(stack_of(vec![num(7), num(2), word(Word::Minus)]), vec![Data::Integer(5)]);
    assert_eq!(stack_of(vec![num(7), num(2), word(Word::Prod)]), vec![Data::Integer(14)]);
    assert_eq!(stack_of(vec![num(2), num(2), word(Word::Plus), num(3), word(Word::Minus)]), vec![Data::Integer(1)]);
}

#[test]
fn divide_divides() {
    // Seven by two is three, not fourteen.
    assert_eq!(stack_of(vec![num(7), num(2), word(Word::Div)]), vec![Data::Integer(3)]);
    assert_eq!(stack_of(vec![num(-7), num(2), word(Word::Div)]), vec![Data::Integer(-3)]);
    assert_eq!(stack_of(vec![num(7), num(-2), word(Word::Div)]), vec![Data::Integer(-3)]);
    assert_eq!(stack_of(vec![num(-7), num(-2), word(Word::Div)]), vec![Data::Integer(3)]);
    assert_eq!(stack_of(vec![num(6), num(3), word(Word::Div)]), vec![Data::Integer(2)]);
    assert_eq!(stack_of(vec![num(i64::MIN), num(i64::MIN), word(Word::Div)]), vec![Data::Integer(1)]);
    assert_eq!(stack_of(vec![num(5), num(i64::MIN), word(Word::Div)]), vec![Data::Integer(0)]);
}

#[test]
fn dividing_by_zero_is_an_error() {
    assert_eq!(failure_of(vec![num(7), num(0), word(Word::Div)]), Error::TypeError);
}

#[test]
fn integer_arithmetic_wraps_around() {
    assert_eq!(stack_of(vec![num(i64::MAX), num(1), word(Word::Plus)]), vec![Data::Integer(i64::MIN)]);
    assert_eq!(stack_of(vec![num(i64::MIN), num(1), word(Word::Minus)]), vec![Data::Integer(i64::MAX)]);
    assert_eq!(stack_of(vec![num(i64::MAX), num(2), word(Word::Prod)]), vec![Data::Integer(-2)]);
    assert_eq!(stack_of(vec![num(i64::MIN), num(-1), word(Word::Div)]), vec![Data::Integer(i64::MIN)]);
}

#[test]
fn floats_are_computed_by_the_host() {
    assert_eq!(stack_of(vec![float("1.5"), float("2.25"), word(Word::Plus)]), vec![Data::Float(3.75f64.to_bits())]);
    assert_eq!(stack_of(vec![float("1.5"), float("2.25"), word(Word::Minus)]), vec![Data::Float((-0.75f64).to_bits())]);
    assert_eq!(stack_of(vec![float("1.5"), float("2.0"), word(Word::Prod)]), vec![Data::Float(3.0f64.to_bits())]);
    assert_eq!(stack_of(vec![float("1.5"), float("2.0"), word(Word::Div)]), vec![Data::Float(0.75f64.to_bits())]);
    assert_eq!(stack_of(vec![float("1.5"), float("2.0"), word(Word::Lt)]), vec![Data::Bool(true)]);
    assert_eq!(stack_of(vec![float("1.5"), float("2.0"), word(Word::Gt)]), vec![Data::Bool(false)]);
    assert_eq!(stack_of(vec![float("2.0"), float("2.0"), word(Word::Eq)]), vec![Data::Bool(true)]);
}

#[test]
fn a_float_operation_is_asked_for_with_its_operands() {
    let tree = program(vec![float("1.5"), float("2.25"), word(Word::Minus)]);
    let mut machine = Machine::new();
    let signal = machine.execute_program(&tree, 64);
    assert_eq!(signal, Signal::Literal("1.5".to_string()));
    assert_eq!(machine.pending(), &Request::Literal("1.5".to_string()));
    // The request is repeated until it is answered.
    assert_eq!(machine.step(), Signal::Literal("1.5".to_string()));
    machine.supply_float(1.5f64.to_bits());
    assert_eq!(machine.stack(), &vec![Data::Float(1.5f64.to_bits())]);
    assert_eq!(machine.run(64), Signal::Literal("2.25".to_string()));
    machine.supply_float(2.25f64.to_bits());
    let signal = machine.run(64);
    assert_eq!(signal, Signal::Arithmetic(Word::Minus, 1.5f64.to_bits(), 2.25f64.to_bits()));
    assert_eq!(machine.pending(), &Request::Arithmetic(Word::Minus, 1.5f64.to_bits(), 2.25f64.to_bits()));
    assert_eq!(machine.stack().len(), 0);
    assert_eq!(machine.step(), Signal::Arithmetic(Word::Minus, 1.5f64.to_bits(), 2.25f64.to_bits()));
    machine.supply_float(9.0f64.to_bits());
    assert_eq!(machine.pending(), &Request::Nothing);
    assert_eq!(machine.run(64), Signal::Done);
    assert_eq!(machine.stack(), &vec![Data::Float(9.0f64.to_bits())]);
}

#[test]
fn numbers_of_two_kinds_do_not_mix() {
    assert_eq!(failure_of(vec![num(1), float("2.0"), word(Word::Plus)]), Error::TypeError);
    assert_eq!(failure_of(vec![float("1.0"), num(2), word(Word::Lt)]), Error::TypeError);
    assert_eq!(failure_of(vec![num(1), Expression::String("2".to_string()), word(Word::Prod)]), Error::TypeError);
    assert_eq!(failure_of(vec![word(Word::Zilde), num(2), word(Word::Eq)]), Error::TypeError);
}

#[test]
fn shuffling_words_shuffle() {
    assert_eq!(stack_of(vec![num(1), num(2), word(Word::Swap)]), vec![Data::Integer(2), Data::Integer(1)]);
    assert_eq!(stack_of(vec![num(1), word(Word::Dup)]), vec![Data::Integer(1), Data::Integer(1)]);
    assert_eq!(stack_of(vec![num(1), num(2), word(Word::Drop)]), vec![Data::Integer(1)]);
    assert_eq!(stack_of(vec![num(1), word(Word::Id)]), vec![Data::Integer(1)]);
}

#[test]
fn a_duplicate_is_a_copy_of_its_own() {
    let stack = stack_of(vec![word(Word::Zilde), word(Word::Dup), num(1), word(Word::Comma)]);
    assert_eq!(
        stack,
        vec![Data::List(VecDeque::new()), Data::List(VecDeque::from(vec![Data::Integer(1)]))]
    );
}

#[test]
fn appending_needs_a_list_below() {
    assert_eq!(failure_of(vec![num(1), num(2), word(Word::Comma)]), Error::TypeError);
}

#[test]
fn beheading_an_empty_list_fails() {
    assert_eq!(failure_of(vec![word(Word::Zilde), word(Word::Behead)]), Error::ListError);
}

#[test]
fn beheading_needs_a_list() {
    assert_eq!(failure_of(vec![num(1), word(Word::Behead)]), Error::TypeError);
}

#[test]
fn a_quotation_is_pushed_and_not_run() {
    let stack = stack_of(vec![quote(word(Word::Print))]);
    assert_eq!(stack, vec![Data::Quotation(Box::new(Arited::Word(Word::Print, Arity(1, 0))))]);
}

#[test]
fn juxtaposed_words_work_on_their_own_operands() {
    // 2 2 3 3 ×;× + : both products, then their sum.
    let stack = stack_of(vec![
        num(2),
        num(2),
        num(3),
        num(3),
        Expression::Concatenation(vec![word(Word::Prod), word(Word::Prod)]),
        word(Word::Plus),
    ]);
    assert_eq!(stack, vec![Data::Integer(13)]);
}

#[test]
fn juxtaposition_keeps_the_order_of_operands() {
    // 7 2 10 4 −;− : seven less two, then ten less four.
    let stack = stack_of(vec![
        num(7),
        num(2),
        num(10),
        num(4),
        Expression::Concatenation(vec![word(Word::Minus), word(Word::Minus)]),
    ]);
    assert_eq!(stack, vec![Data::Integer(5), Data::Integer(6)]);
}

#[test]
fn a_juxtaposition_is_its_children_run_apart() {
    let first = vec![word(Word::Minus), word(Word::Dup)];
    let second = vec![word(Word::Swap)];
    let together = stack_of(vec![
        num(7),
        num(2),
        num(10),
        num(4),
        Expression::Concatenation(vec![
            Expression::Composition(first.clone()),
            Expression::Composition(second.clone()),
        ]),
    ]);
    let mut apart = stack_of(vec![num(7), num(2), Expression::Composition(first)]);
    apart.extend(stack_of(vec![num(10), num(4), Expression::Composition(second)]));
    assert_eq!(together, apart);
    assert_eq!(
        together,
        vec![Data::Integer(5), Data::Integer(5), Data::Integer(4), Data::Integer(10)]
    );
}

#[test]
fn infix_sugar_runs_as_its_point_free_form() {
    // 10 (3 `−`) : the padding keeps a slot for the left operand.
    let tree = program(vec![
        num(10),
        Expression::InfixRight(Box::new(word(Word::Minus)), Box::new(num(3))),
    ]);
    assert_eq!(run(&tree).unwrap().0, vec![Data::Integer(7)]);
    let tree = program(vec![
        num(10),
        Expression::InfixLeft(Box::new(num(3)), Box::new(word(Word::Minus))),
    ]);
    assert_eq!(run(&tree).unwrap().0, vec![Data::Integer(-7)]);
}

#[test]
fn a_loop_runs_until_the_flag_is_false() {
    // 3 [1 − ⇈ 0 >] ∇ : counts down to zero.
    let body = Expression::Composition(vec![
        num(1),
        word(Word::Minus),
        word(Word::Dup),
        num(0),
        word(Word::Gt),
    ]);
    assert_eq!(stack_of(vec![num(3), quote(body), word(Word::Rec)]), vec![Data::Integer(0)]);
}

#[test]
fn a_loop_may_print_on_its_way() {
    let body = Expression::Composition(vec![
        word(Word::Dup),
        word(Word::Print),
        num(1),
        word(Word::Minus),
        word(Word::Dup),
        num(0),
        word(Word::Gt),
    ]);
    let (stack, out) = run(&program(vec![num(3), quote(body), word(Word::Rec)])).unwrap();
    assert_eq!(out, "321");
    assert_eq!(stack, vec![Data::Integer(0)]);
}

#[test]
fn a_loop_needs_a_flag() {
    let body = Expression::Composition(vec![word(Word::Dup)]);
    assert_eq!(failure_of(vec![num(3), quote(body), word(Word::Rec)]), Error::TypeError);
}

#[test]
fn a_loop_needs_a_quotation() {
    assert_eq!(failure_of(vec![num(3), num(4), word(Word::Rec)]), Error::TypeError);
}

#[test]
fn a_loop_without_end_uses_up_any_budget() {
    let body = Expression::Composition(vec![num(1), word(Word::Plus), num(1), num(1), word(Word::Eq)]);
    let tree = program(vec![num(0), quote(body), word(Word::Rec)]);
    let mut machine = Machine::new();
    assert_eq!(machine.execute_program(&tree, 1000), Signal::Continue);
    assert_eq!(machine.run(1000), Signal::Continue);
    assert!(!machine.is_idle());
}

#[test]
fn a_branch_runs_the_arm_that_the_flag_picks() {
    let arms = Arited::question(Arited::Integer(10), Arited::Integer(20)).unwrap();
    let flag = |l: i64, r: i64| {
        Arited::from_expression(Expression::Composition(vec![num(l), num(r), word(Word::Lt)]))
    };
    let taken = Arited::Composition(vec![flag(1, 2), arms.clone()], Arity(0, 1));
    assert_eq!(run(&taken).unwrap().0, vec![Data::Integer(10)]);
    let other = Arited::Composition(vec![flag(2, 1), arms], Arity(0, 1));
    assert_eq!(run(&other).unwrap().0, vec![Data::Integer(20)]);
}

#[test]
fn a_branch_needs_a_flag() {
    let arms = Arited::question(Arited::Integer(10), Arited::Integer(20)).unwrap();
    let tree = Arited::Composition(vec![Arited::Integer(1), arms], Arity(0, 1));
    assert_eq!(run(&tree).unwrap_err(), Error::TypeError);
}

#[test]
fn a_program_that_requires_input_is_refused() {
    let tree = program(vec![num(1), word(Word::Plus)]);
    assert_eq!(tree.arity(), Arity(1, 1));
    let mut machine = Machine::new();
    assert_eq!(machine.execute_program(&tree, 64), Signal::Failed(Error::ArityError));
    // Nothing was run and the machine is as it was.
    assert!(machine.is_idle());
    assert_eq!(machine.stack().len(), 0);
    assert_eq!(machine.failure(), None);
}

#[test]
fn a_tree_may_be_run_on_what_an_earlier_one_left() {
    let mut machine = Machine::new();
    assert_eq!(machine.execute(&program(vec![num(1), num(2)]), 64), Signal::Done);
    let tree = program(vec![word(Word::Plus)]);
    assert_eq!(tree.arity(), Arity(2, 1));
    assert_eq!(machine.execute(&tree, 64), Signal::Done);
    assert_eq!(machine.stack(), &vec![Data::Integer(3)]);
}

#[test]
fn a_failed_machine_goes_on_failing() {
    let tree = program(vec![word(Word::Zilde), word(Word::Behead), num(1)]);
    let mut machine = Machine::new();
    assert_eq!(machine.execute_program(&tree, 64), Signal::Failed(Error::ListError));
    assert_eq!(machine.step(), Signal::Failed(Error::ListError));
    assert_eq!(machine.run(64), Signal::Failed(Error::ListError));
}

#[test]
fn a_step_does_one_job() {
    let tree = program(vec![num(1), num(2), word(Word::Plus)]);
    let mut machine = Machine::new();
    // With no budget the tree is only scheduled.
    assert_eq!(machine.execute_program(&tree, 0), Signal::Continue);
    assert_eq!(machine.stack().len(), 0);
    assert_eq!(machine.step(), Signal::Continue); // the composition
    assert_eq!(machine.step(), Signal::Continue); // 1
    assert_eq!(machine.stack(), &vec![Data::Integer(1)]);
    assert_eq!(machine.step(), Signal::Continue); // 2
    assert_eq!(machine.step(), Signal::Continue); // +
    assert_eq!(machine.stack(), &vec![Data::Integer(3)]);
    assert_eq!(machine.step(), Signal::Done);
    assert_eq!(machine.step(), Signal::Done);
}

#[test]
fn identity_slots_cost_no_step_of_their_own_on_the_stack() {
    let tree = Arited::Composition(vec![Arited::Integer(1), Arited::IdN(1)], Arity(0, 1));
    assert_eq!(run(&tree).unwrap().0, vec![Data::Integer(1)]);
}

fn run_text(code: &str) -> Result<(Vec<Data>, String), Error> {
    run(&Arited::from_expression(parse(code.to_string()).unwrap()))
}

#[test]
fn a_program_runs_from_its_text() {
    assert_eq!(run_text("2 2 +").unwrap().0, vec![Data::Integer(4)]);
    assert_eq!(
        run_text("⍬ 1 , 2 , ⍘").unwrap().0,
        vec![Data::Integer(1), Data::List(VecDeque::from(vec![Data::Integer(2)]))]
    );
    assert_eq!(run_text("42 ⎕").unwrap(), (vec![], "42".to_string()));
    assert_eq!(run_text("2 2 3 3 ×`+`×⎕").unwrap(), (vec![], "13".to_string()));
    assert_eq!(run_text("2 2 3 3 ×;× +").unwrap().0, vec![Data::Integer(13)]);
    assert_eq!(run_text("3 [1 − ⇈ 0 >] ∇").unwrap().0, vec![Data::Integer(0)]);
    assert_eq!(run_text("'a b' ⎕ 1.5 2.5 + ⎕").unwrap(), (vec![], "a b4".to_string()));
    assert_eq!(run_text("5 [2] ∇").unwrap_err(), Error::ArityError);
    assert_eq!(run_text("7 2 ÷").unwrap().0, vec![Data::Integer(3)]);
}

#[test]
fn an_infix_chain_of_lists_runs() {
    // ⍬`,`1`,`2 : the empty list, with 1 and then 2 appended.
    assert_eq!(
        run_text("⍬`,`1`,`2").unwrap().0,
        vec![Data::List(VecDeque::from(vec![Data::Integer(1), Data::Integer(2)]))]
    );
}

fn list_then_behead_beside_identity() -> Arited {
    // ⍬ 1 ⍘;· : the list goes to behead and the integer to identity.
    Arited::Composition(
        vec![
            Arited::Word(Word::Zilde, Arity(0, 1)),
            Arited::Integer(1),
            Arited::Concatenation(
                vec![Arited::Word(Word::Behead, Arity(1, 2)), Arited::Word(Word::Id, Arity(1, 1))],
                Arity(2, 3),
            ),
        ],
        Arity(0, 3),
    )
}

#[test]
fn a_run_that_fails_in_a_juxtaposition_retains_nothing() {
    let tree = list_then_behead_beside_identity();
    assert!(tree.is_well_formed());
    let mut machine = Machine::new();
    assert_eq!(machine.execute_program(&tree, 64), Signal::Failed(Error::ListError));
    assert!(machine.retained().is_empty());
    assert_eq!(machine.failure(), Some(Error::ListError));
    // It stays so while the machine goes on reporting its failure.
    assert_eq!(machine.run(64), Signal::Failed(Error::ListError));
    assert!(machine.retained().is_empty());
}

#[test]
fn what_was_retained_is_discarded_at_the_failing_step() {
    let tree = list_then_behead_beside_identity();
    let mut machine = Machine::new();
    assert_eq!(machine.execute_program(&tree, 0), Signal::Continue);
    assert_eq!(machine.step(), Signal::Continue); // the composition
    assert_eq!(machine.step(), Signal::Continue); // ⍬
    assert_eq!(machine.step(), Signal::Continue); // 1
    assert_eq!(machine.step(), Signal::Continue); // the juxtaposition retains both
    assert_eq!(machine.retained(), &vec![Data::Integer(1), Data::List(VecDeque::new())]);
    assert_eq!(machine.stack().len(), 0);
    assert_eq!(machine.step(), Signal::Continue); // the list comes back
    assert_eq!(machine.retained(), &vec![Data::Integer(1)]);
    assert_eq!(machine.step(), Signal::Failed(Error::ListError)); // ⍘
    assert!(machine.retained().is_empty());
}

#[test]
fn a_type_error_in_a_nested_juxtaposition_retains_nothing() {
    // 1 2 'x' 4 (+;+);· : the second sum meets a text.
    let sums = Expression::Concatenation(vec![word(Word::Plus), word(Word::Id)]);
    let tree = program(vec![
        num(1),
        num(2),
        Expression::String("x".to_string()),
        num(4),
        Expression::Concatenation(vec![
            word(Word::Id),
            Expression::Composition(vec![sums, word(Word::Plus)]),
        ]),
    ]);
    let mut machine = Machine::new();
    assert_eq!(machine.execute_program(&tree, 64), Signal::Failed(Error::TypeError));
    assert!(machine.retained().is_empty());
}

#[test]
fn identity_slots_run_on_a_stack_shorter_than_their_count() {
    let mut machine = Machine::new();
    assert_eq!(machine.execute(&Arited::IdN(3), 64), Signal::Done);
    assert!(machine.is_idle());
    assert!(machine.stack().is_empty());
    assert!(machine.retained().is_empty());
    assert_eq!(machine.execute(&program(vec![num(7)]), 64), Signal::Done);
    assert_eq!(machine.execute(&Arited::IdN(u32::MAX), 64), Signal::Done);
    assert_eq!(machine.stack(), &vec![Data::Integer(7)]);
    assert!(machine.retained().is_empty());
}

#[test]
fn a_tree_needs_what_its_arity_consumes_but_for_identity_slots() {
    assert_eq!(Arited::Word(Word::Plus, Arity(2, 1)).demand(), 2);
    assert_eq!(Arited::Integer(1).demand(), 0);
    assert_eq!(Arited::IdN(5).demand(), 0);
    assert_eq!(Arited::IdN(5).arity(), Arity(5, 5));
    assert_eq!(program(vec![word(Word::Swap), word(Word::Drop)]).demand(), 2);
}
