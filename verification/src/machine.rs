//! The stack machine as a transition system over mathematical states.

use crate::arity::Effect;
use crate::ast::Node;
use crate::number::wrapping_quotient;
use crate::text::{decimal, truth_text};
use crate::value::{all_well_formed, Value};
use crate::word::Word;
use vstd::prelude::*;
use vstd::wrapping::i64_specs::{wrapping_add, wrapping_mul, wrapping_sub};

verus! {

/// Why a run failed.
#[derive(Debug, Clone, Copy, PartialEq, Eq, Structural)]
pub enum Error {
    /// A primitive, a branch or a loop met an operand of the wrong kind, or
    /// an integer was to be divided by zero.
    TypeError,
    /// An empty list was beheaded.
    ListError,
    /// A list or a quotation was to be printed.
    PrintError,
    /// A loop was given a quotation that is not of arity (1, 2), or a
    /// program that requires input was to be run.
    ArityError,
}

/// What the machine waits for: a float, or the truth about two floats,
/// which only its host can compute.
pub enum Pending {
    Nothing,
    /// The float that the literal stands for.
    Literal(Seq<char>),
    /// The number that the word makes of the two floats, left and right.
    Arithmetic(Word, u64, u64),
    /// The truth of the comparison of the two floats, left and right.
    Comparison(Word, u64, u64),
}

/// A unit of work that the machine has still to do.
pub enum Job {
    /// Run the tree.
    Run(Node),
    /// Move this many values back from the retained stack.
    Restore(nat),
    /// Pop the flag that the body of a loop left, and run the body once
    /// more if it is true.
    Loop(Node),
}

/// What a step of the machine tells its host.
pub enum Emit {
    /// A step was made and more are to come.
    Continue,
    /// Nothing is left to do.
    Done,
    /// The text is to be written out.
    Write(Seq<char>),
    /// The float is to be written out.
    WriteFloat(u64),
    /// The float that the literal stands for is asked for.
    Literal(Seq<char>),
    /// The number that the word makes of the two floats is asked for.
    Arithmetic(Word, u64, u64),
    /// The truth of the comparison of the two floats is asked for.
    Comparison(Word, u64, u64),
    /// The run has failed.
    Failed(Error),
}

/// The state of the machine: the primary stack, with its top last; the
/// retained stack; the work still to do, with the next job last; what the
/// machine waits for; and the failure that ended the run, if one did.
pub struct State {
    pub stack: Seq<Value>,
    pub retained: Seq<Value>,
    pub control: Seq<Job>,
    pub pending: Pending,
    pub failure: Option<Error>,
}

impl State {
    /// The state of a fresh machine.
    pub open spec fn fresh() -> State {
        State {
            stack: Seq::empty(),
            retained: Seq::empty(),
            control: Seq::empty(),
            pending: Pending::Nothing,
            failure: None,
        }
    }

    /// Nothing is left to do, nothing is waited for and nothing has failed.
    pub open spec fn idle(self) -> bool {
        self.control.len() == 0 && self.pending is Nothing && self.failure is None
    }

    /// The state with another stack.
    pub open spec fn with_stack(self, stack: Seq<Value>) -> State {
        State { stack, ..self }
    }

    /// The state with other work to do.
    pub open spec fn with_control(self, control: Seq<Job>) -> State {
        State { control, ..self }
    }

    /// The state in which the machine waits for something else.
    pub open spec fn with_pending(self, pending: Pending) -> State {
        State { pending, ..self }
    }

    /// The state with one more value on the stack.
    pub open spec fn push(self, v: Value) -> State {
        self.with_stack(self.stack.push(v))
    }

    /// The state without the top `n` values of the stack.
    pub open spec fn drop(self, n: nat) -> State {
        self.with_stack(self.stack.take(self.stack.len() - n))
    }

    /// The value that lies `depth` below the top of the stack.
    pub open spec fn peek(self, depth: nat) -> Value {
        self.stack[self.stack.len() - 1 - depth]
    }

    /// The state with one more job to do next.
    pub open spec fn schedule(self, job: Job) -> State {
        self.with_control(self.control.push(job))
    }

    /// The step that leaves this state and goes on.
    pub open spec fn go(self) -> (State, Emit) {
        (self, Emit::Continue)
    }

    /// The step that ends the run in this state with the failure. What
    /// was retained is discarded: the retained stack is empty after a run,
    /// however the run ends.
    pub open spec fn fail(self, e: Error) -> (State, Emit) {
        (State { failure: Some(e), retained: Seq::empty(), ..self }, Emit::Failed(e))
    }
}

/// The truth of a comparison of two integers.
pub open spec fn compare(w: Word, l: i64, r: i64) -> bool
    recommends
        w.is_comparison(),
{
    match w {
        Word::Gt => l > r,
        Word::Eq => l == r,
        _ => l < r,
    }
}

/// The integer that an arithmetic word makes of two integers, wrapped
/// around at 64 bits.
pub open spec fn compute(w: Word, l: i64, r: i64) -> i64
    recommends
        w.is_arithmetic(),
        w == Word::Div ==> r != 0,
{
    match w {
        Word::Plus => wrapping_add(l, r),
        Word::Minus => wrapping_sub(l, r),
        Word::Prod => wrapping_mul(l, r),
        _ => wrapping_quotient(l, r),
    }
}

/// A comparison or an arithmetic word: the right operand is on top, the
/// left below it. Two integers are computed with at once, though not
/// divided by zero. For two floats the machine asks its host. Anything else
/// is a type error.
pub open spec fn numeric(s: State, w: Word) -> (State, Emit)
    recommends
        w.is_comparison() || w.is_arithmetic(),
{
    let rest = s.drop(2);
    match (s.peek(1), s.peek(0)) {
        (Value::Integer(l), Value::Integer(r)) => {
            if w.is_comparison() {
                rest.push(Value::Bool(compare(w, l, r))).go()
            } else if w == Word::Div && r == 0 {
                rest.fail(Error::TypeError)
            } else {
                rest.push(Value::Integer(compute(w, l, r))).go()
            }
        },
        (Value::Float(l), Value::Float(r)) => {
            if w.is_comparison() {
                (rest.with_pending(Pending::Comparison(w, l, r)), Emit::Comparison(w, l, r))
            } else {
                (rest.with_pending(Pending::Arithmetic(w, l, r)), Emit::Arithmetic(w, l, r))
            }
        },
        _ => rest.fail(Error::TypeError),
    }
}

/// Appending: the value is on top, the list below it.
pub open spec fn comma(s: State) -> (State, Emit) {
    match s.peek(1) {
        Value::List(l) => s.drop(2).push(Value::List(l.push(s.peek(0)))).go(),
        _ => s.drop(2).fail(Error::TypeError),
    }
}

/// Beheading: the front item of the list on top is pushed, then the rest
/// of the list.
pub open spec fn behead(s: State) -> (State, Emit) {
    match s.peek(0) {
        Value::List(l) => {
            if l.len() == 0 {
                s.drop(1).fail(Error::ListError)
            } else {
                s.drop(1).push(l[0]).push(Value::List(l.drop_first())).go()
            }
        },
        _ => s.drop(1).fail(Error::TypeError),
    }
}

/// Printing: the top value leaves the stack, and its textual form is handed
/// out to be written, with nothing after it.
pub open spec fn print(s: State) -> (State, Emit) {
    match s.peek(0) {
        Value::Integer(i) => (s.drop(1), Emit::Write(decimal(i as int))),
        Value::Float(f) => (s.drop(1), Emit::WriteFloat(f)),
        Value::Bool(b) => (s.drop(1), Emit::Write(truth_text(b))),
        Value::Text(t) => (s.drop(1), Emit::Write(t)),
        _ => s.drop(1).fail(Error::PrintError),
    }
}

/// The loop combinator: the quotation is on top, the seed below it. Both
/// leave the stack. Anything but a quotation on top is a type error, and a
/// quotation whose arity is not (1, 2) an arity error. Otherwise the seed
/// comes back, the body of the quotation is to be run on it, and the look
/// at the flag that the body leaves comes after that.
pub open spec fn recurse(s: State) -> (State, Emit) {
    match s.peek(0) {
        Value::Quotation(body) => {
            if body.effect() != Effect::new(1, 2) {
                s.drop(2).fail(Error::ArityError)
            } else {
                s.drop(2).push(s.peek(1)).schedule(Job::Loop(body)).schedule(Job::Run(body)).go()
            }
        },
        _ => s.drop(2).fail(Error::TypeError),
    }
}

/// A loop over a quotation whose arity is not (1, 2) fails with an arity
/// error, whatever the seed below the quotation is, and schedules nothing.
pub proof fn loop_checks_arity(s: State, body: Node)
    requires
        s.stack.len() >= 2,
        s.peek(0) == Value::Quotation(body),
        body.effect() != Effect::new(1, 2),
    ensures
        recurse(s) == s.drop(2).fail(Error::ArityError),
        recurse(s).0.control == s.control,
{
}

/// Printing an integer takes exactly that one value from the stack and
/// hands out its decimal form.
pub proof fn print_writes_integer(s: State, i: i64)
    requires
        s.stack.len() >= 1,
        s.peek(0) == Value::Integer(i),
    ensures
        print(s) == (s.drop(1), Emit::Write(decimal(i as int))),
        print(s).0.stack == s.stack.drop_last(),
{
}

/// What a word does.
pub open spec fn apply(s: State, w: Word) -> (State, Emit) {
    match w {
        Word::Gt | Word::Eq | Word::Lt => numeric(s, w),
        Word::Plus | Word::Minus | Word::Prod | Word::Div => numeric(s, w),
        Word::Swap => s.drop(2).push(s.peek(0)).push(s.peek(1)).go(),
        Word::Dup => s.push(s.peek(0)).go(),
        Word::Drop => s.drop(1).go(),
        Word::Id => s.go(),
        Word::Zilde => s.push(Value::List(Seq::empty())).go(),
        Word::Comma => comma(s),
        Word::Behead => behead(s),
        Word::Print => print(s),
        Word::Rec => recurse(s),
    }
}

/// The state after the top `n` values of the stack have been moved to the
/// retained stack, the topmost first.
pub open spec fn retain(s: State, n: nat) -> State {
    let keep = s.stack.len() - n;
    State { stack: s.stack.take(keep), retained: s.retained + s.stack.skip(keep).reverse(), ..s }
}

/// The state after the top `n` values of the retained stack have been moved
/// back to the stack, the topmost first.
pub open spec fn restore(s: State, n: nat) -> State {
    let keep = s.retained.len() - n;
    State {
        stack: s.stack + s.retained.skip(keep).reverse(),
        retained: s.retained.take(keep),
        ..s
    }
}

/// The jobs of a composition: its children, the first to be run next.
pub open spec fn piped(c: Seq<Node>) -> Seq<Job>
    decreases c.len(),
{
    if c.len() == 0 {
        Seq::empty()
    } else {
        piped(c.drop_first()).push(Job::Run(c[0]))
    }
}

/// The jobs of a juxtaposition: before each child is run, the values that it
/// consumes are moved back from the retained stack.
pub open spec fn sided(c: Seq<Node>) -> Seq<Job>
    decreases c.len(),
{
    if c.len() == 0 {
        Seq::empty()
    } else {
        sided(c.drop_first()).push(Job::Run(c[0])).push(Job::Restore(c[0].effect().inputs))
    }
}

/// A branch: the flag on top leaves the stack and picks the tree to run.
pub open spec fn branch(s: State, cons: Node, alter: Node) -> (State, Emit) {
    match s.peek(0) {
        Value::Bool(true) => s.drop(1).schedule(Job::Run(cons)).go(),
        Value::Bool(false) => s.drop(1).schedule(Job::Run(alter)).go(),
        _ => s.drop(1).fail(Error::TypeError),
    }
}

/// Running a tree. A composition schedules its children in order. A
/// juxtaposition retains as many values as it consumes and schedules its
/// children, each behind the restoring of its share. An integer or a text
/// is pushed; for a float literal the machine asks its host which float it
/// stands for; a quotation is pushed as a value, not run; identity slots
/// do nothing.
pub open spec fn perform(s: State, n: Node) -> (State, Emit) {
    match n {
        Node::Composition(c, _) => s.with_control(s.control + piped(c)).go(),
        Node::Concatenation(c, e) => {
            let kept = retain(s, e.inputs);
            kept.with_control(kept.control + sided(c)).go()
        },
        Node::Question(cons, alter, _) => branch(s, *cons, *alter),
        Node::Word(w, _) => apply(s, w),
        Node::Integer(i) => s.push(Value::Integer(i)).go(),
        Node::Float(t) => (s.with_pending(Pending::Literal(t)), Emit::Literal(t)),
        Node::Text(t) => s.push(Value::Text(t)).go(),
        Node::Quotation(q) => s.push(Value::Quotation(*q)).go(),
        Node::IdN(_) => s.go(),
    }
}

/// After the body of a loop: the flag on top leaves the stack. On true the
/// body is run once more on the value below, on false the loop is over, and
/// anything else is a type error.
pub open spec fn again(s: State, body: Node) -> (State, Emit) {
    match s.peek(0) {
        Value::Bool(true) => s.drop(1).schedule(Job::Loop(body)).schedule(Job::Run(body)).go(),
        Value::Bool(false) => s.drop(1).go(),
        _ => s.drop(1).fail(Error::TypeError),
    }
}

/// One step of the machine. A failed machine reports its failure again,
/// and a waiting machine its request. With nothing to do the machine is
/// done. Otherwise the next job is taken from the work and done.
pub open spec fn step(s: State) -> (State, Emit) {
    match (s.failure, s.pending) {
        (Some(e), _) => (s, Emit::Failed(e)),
        (None, Pending::Literal(t)) => (s, Emit::Literal(t)),
        (None, Pending::Arithmetic(w, l, r)) => (s, Emit::Arithmetic(w, l, r)),
        (None, Pending::Comparison(w, l, r)) => (s, Emit::Comparison(w, l, r)),
        (None, Pending::Nothing) => {
            if s.control.len() == 0 {
                (s, Emit::Done)
            } else {
                let rest = s.with_control(s.control.drop_last());
                match s.control.last() {
                    Job::Run(n) => perform(rest, n),
                    Job::Restore(k) => restore(rest, k).go(),
                    Job::Loop(body) => again(rest, body),
                }
            }
        },
    }
}

/// Steps of the machine, one after the other, for as long as they go on
/// and the budget lasts: the state that is reached, and what the last step
/// told.
pub open spec fn drive(s: State, budget: nat) -> (State, Emit)
    decreases budget,
{
    if budget == 0 {
        (s, Emit::Continue)
    } else {
        let (next, emit) = step(s);
        if emit is Continue {
            drive(next, (budget - 1) as nat)
        } else {
            (next, emit)
        }
    }
}

/// Where the steps end with nothing left to do, the state is idle.
pub proof fn done_is_idle(s: State, budget: nat)
    requires
        drive(s, budget).1 is Done,
    ensures
        drive(s, budget).0.idle(),
    decreases budget,
{
    if budget > 0 && step(s).1 is Continue {
        done_is_idle(step(s).0, (budget - 1) as nat);
    }
}

/// Where the steps end in a failure, the state has failed.
pub proof fn failed_is_failure(s: State, budget: nat)
    requires
        drive(s, budget).1 is Failed,
    ensures
        drive(s, budget).0.failure is Some,
    decreases budget,
{
    if budget > 0 && step(s).1 is Continue {
        failed_is_failure(step(s).0, (budget - 1) as nat);
    }
}

/// Identity slots have no effect when they are run: on any stack, however
/// short, the step leaves the state as it is and goes on.
pub proof fn identity_slots_do_nothing(s: State, n: nat)
    ensures
        perform(s, Node::IdN(n)) == s.go(),
{
}

/// Identity slots run on an idle machine leave it as it was, on any stack:
/// two steps, and nothing is left to do.
pub proof fn identity_slots_alone(s: State, n: nat, budget: nat)
    requires
        s.idle(),
        budget >= 2,
    ensures
        drive(s.schedule(Job::Run(Node::IdN(n))), budget) == (s, Emit::Done),
{
    let scheduled = s.schedule(Job::Run(Node::IdN(n)));
    assert(scheduled.control.drop_last() =~= s.control);
    assert(step(scheduled) == s.go());
    reveal_with_fuel(drive, 3);
}

/// The state after the host has supplied the value that was waited for.
pub open spec fn answer(s: State, v: Value) -> State {
    s.with_pending(Pending::Nothing).push(v)
}

impl Job {
    /// The tree of the job is well-formed, and the body of a loop has arity
    /// (1, 2).
    pub open spec fn well_formed(self) -> bool {
        match self {
            Job::Run(n) => n.well_formed(),
            Job::Restore(_) => true,
            Job::Loop(body) => body.well_formed() && body.effect() == Effect::new(1, 2),
        }
    }

    /// How many values the job needs on the stack.
    pub open spec fn demand(self) -> nat {
        match self {
            Job::Run(n) => n.demand(),
            Job::Restore(_) => 0,
            Job::Loop(_) => 2,
        }
    }

    /// By how much the job changes the height of the stack when it and
    /// all that it schedules is done.
    pub open spec fn net(self) -> int {
        match self {
            Job::Run(n) => n.effect().net(),
            Job::Restore(k) => k as int,
            Job::Loop(_) => -1,
        }
    }

    /// How many values the job takes from the retained stack.
    pub open spec fn held(self) -> nat {
        match self {
            Job::Restore(k) => k,
            _ => 0,
        }
    }
}

/// Every job of the work is well-formed.
pub open spec fn all_jobs_well_formed(control: Seq<Job>) -> bool {
    forall|i: int| 0 <= i < control.len() ==> (#[trigger] control[i]).well_formed()
}

/// The work can be done from a stack of this height and a retained stack
/// of that height: each job in turn finds the values that it needs, and
/// the retained stack is empty in the end.
pub open spec fn flows(control: Seq<Job>, height: int, kept: int) -> bool
    decreases control.len(),
{
    if control.len() == 0 {
        kept == 0
    } else {
        let job = control.last();
        &&& job.demand() <= height
        &&& job.held() <= kept
        &&& flows(control.drop_last(), height + job.net(), kept - job.held())
    }
}

/// The state, from whose work the job has been taken, is one in which the
/// job can be done: nothing has failed and nothing is waited for, all trees
/// are well-formed, the job finds the values that it needs, and the rest of
/// the work can be done after it.
pub open spec fn ready(s: State, job: Job) -> bool {
    &&& s.failure is None
    &&& s.pending is Nothing
    &&& all_well_formed(s.stack)
    &&& all_well_formed(s.retained)
    &&& all_jobs_well_formed(s.control)
    &&& job.well_formed()
    &&& job.demand() <= s.stack.len()
    &&& job.held() <= s.retained.len()
    &&& flows(s.control, s.stack.len() + job.net(), s.retained.len() - job.held())
}

/// By how much all the jobs of the work change the height of the stack.
pub open spec fn total_net(control: Seq<Job>) -> int
    decreases control.len(),
{
    if control.len() == 0 {
        0
    } else {
        total_net(control.drop_last()) + control.last().net()
    }
}

impl State {
    /// The height at which the stack will be when all work is done.
    pub open spec fn landing(self) -> int {
        self.height() + total_net(self.control)
    }

    /// The height of the stack, counting the value that is waited for.
    pub open spec fn height(self) -> int {
        if self.pending is Nothing {
            self.stack.len() as int
        } else {
            self.stack.len() as int + 1
        }
    }

    /// The state is one that a run of well-formed trees can be in: all
    /// trees in values and jobs are well-formed, and the work can be done
    /// from the two stacks as they are. A failed state is sound if nothing
    /// is retained in it.
    pub open spec fn sound(self) -> bool {
        if self.failure is Some {
            self.retained.len() == 0
        } else {
            &&& all_well_formed(self.stack)
            &&& all_well_formed(self.retained)
            &&& all_jobs_well_formed(self.control)
            &&& flows(self.control, self.height(), self.retained.len() as int)
        }
    }
}

} // verus!
