//! The stack machine.
//!
//! The machine does its work in steps and keeps what is still to do as a
//! stack of tasks, so that a run can stop wherever only the host of the
//! machine can go on: where text is to be written out, and where floats are
//! to be read, computed with or compared. Each step tells the host what it
//! is to do; the host supplies what was asked for and lets the machine run
//! on.

use crate::arity::Arity;
use crate::ast::{nodes, Arited};
use crate::machine::{
    again, answer, apply, behead, branch, comma, done_is_idle, drive, failed_is_failure, flows,
    numeric, perform,
    piped, print, recurse, restore, retain, sided, step, Emit, Job, Pending, State,
};
use crate::number::divide;
use crate::sound::{answer_sound, fresh_is_sound, sound_is_ready, step_sound};
use crate::text::{bool_text, integer_text};
use crate::value::{list_model, values, Data, Value};
use crate::word::Word;
use std::collections::VecDeque;
use vstd::prelude::*;

pub use crate::machine::Error;

verus! {

broadcast use vstd::std_specs::vecdeque::group_vec_dequeue_axioms;

/// A unit of work that the machine has still to do.
#[derive(Debug, PartialEq)]
pub enum Task {
    /// Run the tree.
    Run(Arited),
    /// Move this many values back from the retained stack.
    Restore(u32),
    /// Pop the flag that the body of a loop left, and run the body once
    /// more if it is true.
    Loop(Arited),
}

impl View for Task {
    type V = Job;

    open spec fn view(&self) -> Job {
        match self {
            Task::Run(a) => Job::Run(a@),
            Task::Restore(n) => Job::Restore(*n as nat),
            Task::Loop(a) => Job::Loop(a@),
        }
    }
}

/// The models of a sequence of tasks.
pub open spec fn jobs(s: Seq<Task>) -> Seq<Job> {
    Seq::new(s.len(), |i: int| s[i]@)
}

/// What the machine waits for: a float, or the truth about two floats,
/// which only its host can compute.
#[derive(Debug, PartialEq)]
pub enum Request {
    Nothing,
    /// The float that the literal stands for.
    Literal(String),
    /// The number that the word makes of the two floats, left and right.
    Arithmetic(Word, u64, u64),
    /// The truth of the comparison of the two floats, left and right.
    Comparison(Word, u64, u64),
}

impl View for Request {
    type V = Pending;

    open spec fn view(&self) -> Pending {
        match self {
            Request::Nothing => Pending::Nothing,
            Request::Literal(t) => Pending::Literal(t@),
            Request::Arithmetic(w, l, r) => Pending::Arithmetic(*w, *l, *r),
            Request::Comparison(w, l, r) => Pending::Comparison(*w, *l, *r),
        }
    }
}

/// What a step of the machine tells its host.
#[derive(Debug, PartialEq)]
pub enum Signal {
    /// A step was made and more are to come.
    Continue,
    /// Nothing is left to do.
    Done,
    /// The text is to be written out, with nothing after it.
    Write(String),
    /// The float, given by its bits, is to be written out.
    WriteFloat(u64),
    /// The host is to say which float the literal stands for, and to
    /// supply it.
    Literal(String),
    /// The host is to compute the number that the word makes of the two
    /// floats, left and right, and to supply it.
    Arithmetic(Word, u64, u64),
    /// The host is to compare the two floats, left and right, as the word
    /// says, and to supply the truth.
    Comparison(Word, u64, u64),
    /// The run has failed.
    Failed(Error),
}

impl View for Signal {
    type V = Emit;

    open spec fn view(&self) -> Emit {
        match self {
            Signal::Continue => Emit::Continue,
            Signal::Done => Emit::Done,
            Signal::Write(s) => Emit::Write(s@),
            Signal::WriteFloat(f) => Emit::WriteFloat(*f),
            Signal::Literal(t) => Emit::Literal(t@),
            Signal::Arithmetic(w, l, r) => Emit::Arithmetic(*w, *l, *r),
            Signal::Comparison(w, l, r) => Emit::Comparison(*w, *l, *r),
            Signal::Failed(e) => Emit::Failed(*e),
        }
    }
}

/// The machine: a primary stack, a retained stack that serves juxtapositions
/// as scratch space, and the work that is still to do.
#[derive(Debug)]
pub struct Machine {
    stack: Vec<Data>,
    retained: Vec<Data>,
    control: Vec<Task>,
    pending: Request,
    failure: Option<Error>,
}

impl View for Machine {
    type V = State;

    closed spec fn view(&self) -> State {
        State {
            stack: values(self.stack@),
            retained: values(self.retained@),
            control: jobs(self.control@),
            pending: self.pending@,
            failure: self.failure,
        }
    }
}

impl Machine {
    /// A fresh machine: both stacks empty and nothing to do.
    pub fn new() -> (r: Machine)
        ensures
            r@ == State::fresh(),
            r@.sound(),
    {
        proof {
            fresh_is_sound();
        }
        let r = Machine {
            stack: Vec::new(),
            retained: Vec::new(),
            control: Vec::new(),
            pending: Request::Nothing,
            failure: None,
        };
        assert(r@.stack =~= Seq::<Value>::empty());
        assert(r@.control =~= Seq::<Job>::empty());
        r
    }

    /// Moves the top `n` values to the retained stack, the topmost first.
    fn retain(&mut self, n: usize)
        requires
            n <= old(self)@.stack.len(),
        ensures
            final(self)@ == retain(old(self)@, n as nat),
    {
        let ghost stack = self.stack@;
        let ghost retained = self.retained@;
        let ghost len = self.stack@.len() as int;
        let mut i: usize = 0;
        while i < n
            invariant
                i <= n <= len,
                len == stack.len(),
                self.stack@ == stack.take(len - i),
                self.retained@ == retained + stack.skip(len - i).reverse(),
                self.control == old(self).control,
                self.pending == old(self).pending,
                self.failure == old(self).failure,
            decreases n - i,
        {
            let v = self.stack.pop().unwrap();
            self.retained.push(v);
            i += 1;
        }
        proof {
            let after = retain(old(self)@, n as nat);
            assert(values(self.stack@) =~= after.stack);
            assert(values(self.retained@) =~= after.retained);
        }
    }

    /// Moves the top `n` values of the retained stack back, the topmost
    /// first.
    fn restore(&mut self, n: usize)
        requires
            n <= old(self)@.retained.len(),
        ensures
            final(self)@ == restore(old(self)@, n as nat),
    {
        let ghost stack = self.stack@;
        let ghost retained = self.retained@;
        let ghost len = self.retained@.len() as int;
        let mut i: usize = 0;
        while i < n
            invariant
                i <= n <= len,
                len == retained.len(),
                self.retained@ == retained.take(len - i),
                self.stack@ == stack + retained.skip(len - i).reverse(),
                self.control == old(self).control,
                self.pending == old(self).pending,
                self.failure == old(self).failure,
            decreases n - i,
        {
            let v = self.retained.pop().unwrap();
            self.stack.push(v);
            i += 1;
        }
        proof {
            let after = restore(old(self)@, n as nat);
            assert(values(self.stack@) =~= after.stack);
            assert(values(self.retained@) =~= after.retained);
        }
    }

    /// Takes the top value from the stack.
    fn pop_one(&mut self) -> (v: Data)
        requires
            old(self)@.stack.len() >= 1,
        ensures
            v@ == old(self)@.peek(0),
            final(self)@ == old(self)@.drop(1),
    {
        let v = self.stack.pop().unwrap();
        assert(values(self.stack@) =~= old(self)@.drop(1).stack);
        v
    }

    /// Takes the top two values from the stack: the lower one, then the
    /// upper one.
    fn pop_two(&mut self) -> (pair: (Data, Data))
        requires
            old(self)@.stack.len() >= 2,
        ensures
            pair.0@ == old(self)@.peek(1),
            pair.1@ == old(self)@.peek(0),
            final(self)@ == old(self)@.drop(2),
    {
        let r = self.pop_one();
        let l = self.pop_one();
        assert(self@.stack =~= old(self)@.drop(2).stack);
        (l, r)
    }

    /// Puts a value on the stack.
    fn push(&mut self, v: Data)
        ensures
            final(self)@ == old(self)@.push(v@),
    {
        self.stack.push(v);
        assert(values(self.stack@) =~= old(self)@.push(v@).stack);
    }

    /// Puts an integer on the stack.
    fn push_integer(&mut self, integer: i64)
        ensures
            final(self)@ == old(self)@.push(Value::Integer(integer)),
    {
        self.push(Data::Integer(integer));
    }

    /// Puts a float, given by its bits, on the stack.
    fn push_float(&mut self, float: u64)
        ensures
            final(self)@ == old(self)@.push(Value::Float(float)),
    {
        self.push(Data::Float(float));
    }

    /// Puts a text on the stack.
    fn push_string(&mut self, string: String)
        ensures
            final(self)@ == old(self)@.push(Value::Text(string@)),
    {
        self.push(Data::String(string));
    }

    /// Puts a truth value on the stack.
    fn push_bool(&mut self, logic: bool)
        ensures
            final(self)@ == old(self)@.push(Value::Bool(logic)),
    {
        self.push(Data::Bool(logic));
    }

    /// Puts a new empty list on the stack.
    fn push_zilde(&mut self)
        ensures
            final(self)@ == old(self)@.push(Value::List(Seq::empty())),
    {
        let list: VecDeque<Data> = VecDeque::new();
        proof {
            list_model(list);
            assert(values(list@) =~= Seq::<Value>::empty());
        }
        self.push(Data::List(list));
    }

    /// Puts a quotation of the tree on the stack.
    fn push_quotation(&mut self, arited: Box<Arited>)
        ensures
            final(self)@ == old(self)@.push(Value::Quotation(arited@)),
    {
        self.push(Data::Quotation(arited));
    }

    /// Ends the run with the failure, and discards what was retained.
    fn fail(&mut self, e: Error) -> (signal: Signal)
        ensures
            (final(self)@, signal@) == old(self)@.fail(e),
    {
        self.failure = Some(e);
        self.retained = Vec::new();
        assert(values(self.retained@) =~= Seq::<Value>::empty());
        Signal::Failed(e)
    }

    /// Schedules a job to be done next.
    fn schedule(&mut self, task: Task)
        ensures
            final(self)@ == old(self)@.schedule(task@),
    {
        self.control.push(task);
        assert(jobs(self.control@) =~= old(self)@.schedule(task@).control);
    }

    /// Asks the host for what the word makes of two floats.
    fn ask(&mut self, w: Word, l: u64, r: u64) -> (signal: Signal)
        requires
            w.is_comparison() || w.is_arithmetic(),
        ensures
            w.is_comparison() ==> final(self)@ == old(self)@.with_pending(Pending::Comparison(w, l, r))
                && signal@ == Emit::Comparison(w, l, r),
            !w.is_comparison() ==> final(self)@ == old(self)@.with_pending(Pending::Arithmetic(w, l, r))
                && signal@ == Emit::Arithmetic(w, l, r),
    {
        match w {
            Word::Gt | Word::Eq | Word::Lt => {
                self.pending = Request::Comparison(w, l, r);
                Signal::Comparison(w, l, r)
            },
            _ => {
                self.pending = Request::Arithmetic(w, l, r);
                Signal::Arithmetic(w, l, r)
            },
        }
    }

    /// Whether the left number is greater than the right one.
    fn greater_than(&mut self) -> (signal: Signal)
        requires
            old(self)@.stack.len() >= 2,
        ensures
            (final(self)@, signal@) == numeric(old(self)@, Word::Gt),
    {
        let (left, right) = self.pop_two();
        match (left, right) {
            (Data::Integer(l), Data::Integer(r)) => {
                self.push_bool(l > r);
                Signal::Continue
            },
            (Data::Float(l), Data::Float(r)) => self.ask(Word::Gt, l, r),
            _ => self.fail(Error::TypeError),
        }
    }

    /// Whether the left number is less than the right one.
    fn lesser_than(&mut self) -> (signal: Signal)
        requires
            old(self)@.stack.len() >= 2,
        ensures
            (final(self)@, signal@) == numeric(old(self)@, Word::Lt),
    {
        let (left, right) = self.pop_two();
        match (left, right) {
            (Data::Integer(l), Data::Integer(r)) => {
                self.push_bool(l < r);
                Signal::Continue
            },
            (Data::Float(l), Data::Float(r)) => self.ask(Word::Lt, l, r),
            _ => self.fail(Error::TypeError),
        }
    }

    /// Whether the two numbers are equal.
    fn equals(&mut self) -> (signal: Signal)
        requires
            old(self)@.stack.len() >= 2,
        ensures
            (final(self)@, signal@) == numeric(old(self)@, Word::Eq),
    {
        let (left, right) = self.pop_two();
        match (left, right) {
            (Data::Integer(l), Data::Integer(r)) => {
                self.push_bool(l == r);
                Signal::Continue
            },
            (Data::Float(l), Data::Float(r)) => self.ask(Word::Eq, l, r),
            _ => self.fail(Error::TypeError),
        }
    }

    /// The sum of two numbers.
    fn plus(&mut self) -> (signal: Signal)
        requires
            old(self)@.stack.len() >= 2,
        ensures
            (final(self)@, signal@) == numeric(old(self)@, Word::Plus),
    {
        let (left, right) = self.pop_two();
        match (left, right) {
            (Data::Integer(l), Data::Integer(r)) => {
                self.push_integer(l.wrapping_add(r));
                Signal::Continue
            },
            (Data::Float(l), Data::Float(r)) => self.ask(Word::Plus, l, r),
            _ => self.fail(Error::TypeError),
        }
    }

    /// The left number less the right one.
    fn minus(&mut self) -> (signal: Signal)
        requires
            old(self)@.stack.len() >= 2,
        ensures
            (final(self)@, signal@) == numeric(old(self)@, Word::Minus),
    {
        let (left, right) = self.pop_two();
        match (left, right) {
            (Data::Integer(l), Data::Integer(r)) => {
                self.push_integer(l.wrapping_sub(r));
                Signal::Continue
            },
            (Data::Float(l), Data::Float(r)) => self.ask(Word::Minus, l, r),
            _ => self.fail(Error::TypeError),
        }
    }

    /// The product of two numbers.
    fn prod(&mut self) -> (signal: Signal)
        requires
            old(self)@.stack.len() >= 2,
        ensures
            (final(self)@, signal@) == numeric(old(self)@, Word::Prod),
    {
        let (left, right) = self.pop_two();
        match (left, right) {
            (Data::Integer(l), Data::Integer(r)) => {
                self.push_integer(l.wrapping_mul(r));
                Signal::Continue
            },
            (Data::Float(l), Data::Float(r)) => self.ask(Word::Prod, l, r),
            _ => self.fail(Error::TypeError),
        }
    }

    /// The left number divided by the right one. An integer is not divided
    /// by zero: that is a type error.
    fn div(&mut self) -> (signal: Signal)
        requires
            old(self)@.stack.len() >= 2,
        ensures
            (final(self)@, signal@) == numeric(old(self)@, Word::Div),
    {
        let (left, right) = self.pop_two();
        match (left, right) {
            (Data::Integer(l), Data::Integer(r)) => {
                if r == 0 {
                    self.fail(Error::TypeError)
                } else {
                    self.push_integer(divide(l, r));
                    Signal::Continue
                }
            },
            (Data::Float(l), Data::Float(r)) => self.ask(Word::Div, l, r),
            _ => self.fail(Error::TypeError),
        }
    }

    /// Exchanges the top two values.
    fn swap(&mut self) -> (signal: Signal)
        requires
            old(self)@.stack.len() >= 2,
        ensures
            (final(self)@, signal@) == apply(old(self)@, Word::Swap),
    {
        let (l, r) = self.pop_two();
        self.push(r);
        self.push(l);
        Signal::Continue
    }

    /// Puts a copy of the top value on the stack.
    fn dup(&mut self) -> (signal: Signal)
        requires
            old(self)@.stack.len() >= 1,
        ensures
            (final(self)@, signal@) == apply(old(self)@, Word::Dup),
    {
        let v = self.pop_one();
        self.push(v.clone());
        self.push(v);
        assert(self@.stack =~= old(self)@.push(old(self)@.peek(0)).stack);
        Signal::Continue
    }

    /// Discards the top value.
    fn drop(&mut self) -> (signal: Signal)
        requires
            old(self)@.stack.len() >= 1,
        ensures
            (final(self)@, signal@) == apply(old(self)@, Word::Drop),
    {
        let _ = self.pop_one();
        Signal::Continue
    }

    /// Appends the top value to the list below it.
    fn comma(&mut self) -> (signal: Signal)
        requires
            old(self)@.stack.len() >= 2,
        ensures
            (final(self)@, signal@) == comma(old(self)@),
    {
        let (list, val) = self.pop_two();
        match list {
            Data::List(vs) => {
                let mut vs = vs;
                proof {
                    list_model(vs);
                }
                let ghost before = vs@;
                vs.push_back(val);
                proof {
                    list_model(vs);
                    assert(values(vs@) =~= values(before).push(val@));
                }
                self.push(Data::List(vs));
                Signal::Continue
            },
            _ => self.fail(Error::TypeError),
        }
    }

    /// Takes the front item from the list on top: the item is pushed, then
    /// the rest of the list.
    fn behead(&mut self) -> (signal: Signal)
        requires
            old(self)@.stack.len() >= 1,
        ensures
            (final(self)@, signal@) == behead(old(self)@),
    {
        let list = self.pop_one();
        match list {
            Data::List(vs) => {
                let mut vs = vs;
                proof {
                    list_model(vs);
                }
                let ghost before = vs@;
                match vs.pop_front() {
                    Some(v) => {
                        proof {
                            list_model(vs);
                            assert(values(vs@) =~= values(before).drop_first());
                        }
                        self.push(v);
                        self.push(Data::List(vs));
                        Signal::Continue
                    },
                    None => self.fail(Error::ListError),
                }
            },
            _ => self.fail(Error::TypeError),
        }
    }

    /// Takes the top value and hands out its textual form to be written.
    fn print(&mut self) -> (signal: Signal)
        requires
            old(self)@.stack.len() >= 1,
        ensures
            (final(self)@, signal@) == print(old(self)@),
    {
        let val = self.pop_one();
        match val {
            Data::Integer(i) => Signal::Write(integer_text(i)),
            Data::Float(f) => Signal::WriteFloat(f),
            Data::Bool(b) => Signal::Write(bool_text(b)),
            Data::String(s) => Signal::Write(s),
            _ => self.fail(Error::PrintError),
        }
    }

    /// Does what the word says.
    fn execute_word(&mut self, word: Word) -> (signal: Signal)
        requires
            word.effect().inputs <= old(self)@.stack.len(),
        ensures
            (final(self)@, signal@) == apply(old(self)@, word),
    {
        match word {
            Word::Gt => self.greater_than(),
            Word::Eq => self.equals(),
            Word::Lt => self.lesser_than(),
            Word::Plus => self.plus(),
            Word::Minus => self.minus(),
            Word::Prod => self.prod(),
            Word::Div => self.div(),
            Word::Swap => self.swap(),
            Word::Dup => self.dup(),
            Word::Drop => self.drop(),
            Word::Id => Signal::Continue,
            Word::Zilde => {
                self.push_zilde();
                Signal::Continue
            },
            Word::Comma => self.comma(),
            Word::Behead => self.behead(),
            Word::Print => self.print(),
            Word::Rec => self.recurse(),
        }
    }

    /// The loop combinator: takes the quotation on top and the seed below
    /// it, refuses a quotation whose arity is not (1, 2), and schedules the
    /// body on the seed with the look at its flag behind it.
    fn recurse(&mut self) -> (signal: Signal)
        requires
            old(self)@.stack.len() >= 2,
        ensures
            (final(self)@, signal@) == recurse(old(self)@),
    {
        let (init, quote) = self.pop_two();
        match quote {
            Data::Quotation(q) => {
                if q.arity() != Arity(1, 2) {
                    return self.fail(Error::ArityError);
                }
                self.push(init);
                let body: Arited = *q;
                self.schedule(Task::Loop(body.clone()));
                self.schedule(Task::Run(body));
                Signal::Continue
            },
            _ => self.fail(Error::TypeError),
        }
    }

    /// Schedules the children of a composition, the first to be run next.
    fn schedule_piped(&mut self, children: Vec<Arited>)
        ensures
            final(self)@ == old(self)@.with_control(old(self)@.control + piped(nodes(children@))),
    {
        let ghost all = nodes(children@);
        let ghost before = self@;
        let mut rest = children;
        while rest.len() > 0
            invariant
                all.len() == children.len(),
                rest.len() <= all.len(),
                nodes(rest@) == all.take(rest.len() as int),
                self@ == before.with_control(before.control + piped(all.skip(rest.len() as int))),
            decreases rest.len(),
        {
            let ghost k = rest.len() as int;
            let ghost shown = nodes(rest@);
            let child = rest.pop().unwrap();
            proof {
                assert(child@ == shown[k - 1]);
                assert(all.skip(k - 1).drop_first() =~= all.skip(k));
                assert(before.control + piped(all.skip(k - 1)) =~= (before.control + piped(
                    all.skip(k),
                )).push(Job::Run(child@)));
            }
            self.schedule(Task::Run(child));
        }
        assert(all.skip(0) =~= all);
    }

    /// Schedules the children of a juxtaposition, each behind the restoring
    /// of what it consumes, the first to be run next.
    fn schedule_sided(&mut self, children: Vec<Arited>)
        ensures
            final(self)@ == old(self)@.with_control(old(self)@.control + sided(nodes(children@))),
    {
        let ghost all = nodes(children@);
        let ghost before = self@;
        let mut rest = children;
        while rest.len() > 0
            invariant
                all.len() == children.len(),
                rest.len() <= all.len(),
                nodes(rest@) == all.take(rest.len() as int),
                self@ == before.with_control(before.control + sided(all.skip(rest.len() as int))),
            decreases rest.len(),
        {
            let ghost k = rest.len() as int;
            let ghost shown = nodes(rest@);
            let child = rest.pop().unwrap();
            let inputs: u32 = child.arity().0;
            proof {
                assert(child@ == shown[k - 1]);
                assert(all.skip(k - 1).drop_first() =~= all.skip(k));
                assert(before.control + sided(all.skip(k - 1)) =~= (before.control + sided(
                    all.skip(k),
                )).push(Job::Run(child@)).push(Job::Restore(inputs as nat)));
            }
            self.schedule(Task::Run(child));
            self.schedule(Task::Restore(inputs));
        }
        assert(all.skip(0) =~= all);
    }

    /// Pops the flag of a branch and schedules the tree that it picks.
    fn choose_branch(&mut self, cons: Arited, alter: Arited) -> (signal: Signal)
        requires
            old(self)@.stack.len() >= 1,
        ensures
            (final(self)@, signal@) == branch(old(self)@, cons@, alter@),
    {
        let cond = self.pop_one();
        match cond {
            Data::Bool(true) => {
                self.schedule(Task::Run(cons));
                Signal::Continue
            },
            Data::Bool(false) => {
                self.schedule(Task::Run(alter));
                Signal::Continue
            },
            _ => self.fail(Error::TypeError),
        }
    }

    /// Runs a tree: a leaf is done at once, the children of a sequence or
    /// the arm of a branch are scheduled.
    fn perform(&mut self, expr: Arited) -> (signal: Signal)
        requires
            expr@.well_formed(),
            expr@.demand() <= old(self)@.stack.len(),
        ensures
            (final(self)@, signal@) == perform(old(self)@, expr@),
    {
        match expr {
            Arited::Composition(comp, _) => {
                self.schedule_piped(comp);
                Signal::Continue
            },
            Arited::Concatenation(conc, arity) => {
                self.retain(arity.0 as usize);
                self.schedule_sided(conc);
                Signal::Continue
            },
            Arited::Question(cons, alter, _) => self.choose_branch(*cons, *alter),
            Arited::Word(w, _) => self.execute_word(w),
            Arited::Integer(i) => {
                self.push_integer(i);
                Signal::Continue
            },
            Arited::Float(t) => {
                self.pending = Request::Literal(t.clone());
                Signal::Literal(t)
            },
            Arited::String(s) => {
                self.push_string(s);
                Signal::Continue
            },
            Arited::Quotation(q) => {
                self.push_quotation(q);
                Signal::Continue
            },
            Arited::IdN(_) => Signal::Continue,
        }
    }

    /// Pops the flag that the body of a loop left, and schedules the body
    /// once more if it is true.
    fn repeat(&mut self, body: Arited) -> (signal: Signal)
        requires
            old(self)@.stack.len() >= 1,
        ensures
            (final(self)@, signal@) == again(old(self)@, body@),
    {
        let cond = self.pop_one();
        match cond {
            Data::Bool(false) => Signal::Continue,
            Data::Bool(true) => {
                self.schedule(Task::Loop(body.clone()));
                self.schedule(Task::Run(body));
                Signal::Continue
            },
            _ => self.fail(Error::TypeError),
        }
    }

    /// Makes one step.
    pub fn step(&mut self) -> (signal: Signal)
        requires
            old(self)@.sound(),
        ensures
            (final(self)@, signal@) == step(old(self)@),
            final(self)@.sound(),
            signal is Failed ==> final(self)@.retained.len() == 0,
    {
        proof {
            step_sound(self@);
        }
        if let Some(e) = self.failure {
            return Signal::Failed(e);
        }
        match &self.pending {
            Request::Literal(t) => {
                return Signal::Literal(t.clone());
            },
            Request::Arithmetic(w, l, r) => {
                return Signal::Arithmetic(*w, *l, *r);
            },
            Request::Comparison(w, l, r) => {
                return Signal::Comparison(*w, *l, *r);
            },
            Request::Nothing => {},
        }
        let ghost before = self@;
        match self.control.pop() {
            None => Signal::Done,
            Some(task) => {
                proof {
                    sound_is_ready(before);
                    assert(self@.control =~= before.control.drop_last());
                }
                match task {
                    Task::Run(expr) => self.perform(expr),
                    Task::Restore(n) => {
                        self.restore(n as usize);
                        Signal::Continue
                    },
                    Task::Loop(body) => self.repeat(body),
                }
            },
        }
    }

    /// Makes steps for as long as they go on and the budget lasts, and
    /// returns what the last step told: `Continue` when the budget ran out,
    /// `Done` when nothing is left to do.
    pub fn run(&mut self, budget: u64) -> (signal: Signal)
        requires
            old(self)@.sound(),
        ensures
            (final(self)@, signal@) == drive(old(self)@, budget as nat),
            final(self)@.sound(),
            signal is Done ==> final(self)@.idle(),
            signal is Done || signal is Failed ==> final(self)@.retained.len() == 0,
    {
        proof {
            if drive(self@, budget as nat).1 is Done {
                done_is_idle(self@, budget as nat);
            }
            if drive(self@, budget as nat).1 is Failed {
                failed_is_failure(self@, budget as nat);
            }
        }
        let mut left: u64 = budget;
        while left > 0
            invariant
                self@.sound(),
                drive(old(self)@, budget as nat) == drive(self@, left as nat),
            decreases left,
        {
            let signal = self.step();
            match signal {
                Signal::Continue => {},
                _ => {
                    return signal;
                },
            }
            left -= 1;
        }
        Signal::Continue
    }

    /// Schedules the tree and makes steps for as long as they go on and the
    /// budget lasts. The machine is idle, and the stack holds what the tree
    /// needs: as many values as its arity consumes, but none for identity
    /// slots, which run on any stack. Nothing is retained when the run has
    /// come to its end or has failed.
    pub fn execute(&mut self, expr: &Arited, budget: u64) -> (signal: Signal)
        requires
            old(self)@.sound(),
            old(self)@.idle(),
            expr@.well_formed(),
            expr@.demand() <= old(self)@.stack.len(),
        ensures
            (final(self)@, signal@) == drive(old(self)@.schedule(Job::Run(expr@)), budget as nat),
            final(self)@.sound(),
            signal is Done ==> final(self)@.idle(),
            signal is Done || signal is Failed ==> final(self)@.retained.len() == 0,
    {
        self.schedule(Task::Run(expr.clone()));
        proof {
            let before = old(self)@;
            let job = Job::Run(expr@);
            let height = before.stack.len() as int;
            let kept = before.retained.len() as int;
            assert(flows(before.schedule(job).control.drop_last(), height + job.net(), kept));
        }
        self.run(budget)
    }

    /// Runs a whole program: one that requires input fails with an arity
    /// error, and the machine is left as it was. Nothing is retained when
    /// the run has come to its end or has failed.
    pub fn execute_program(&mut self, expr: &Arited, budget: u64) -> (signal: Signal)
        requires
            old(self)@.sound(),
            old(self)@.idle(),
            expr@.well_formed(),
        ensures
            expr@.effect().inputs != 0 ==> final(self)@ == old(self)@ && signal@ == Emit::Failed(
                Error::ArityError,
            ),
            expr@.effect().inputs == 0 ==> (final(self)@, signal@) == drive(
                old(self)@.schedule(Job::Run(expr@)),
                budget as nat,
            ),
            final(self)@.sound(),
            signal is Done ==> final(self)@.idle(),
            signal is Done || signal is Failed ==> final(self)@.retained.len() == 0,
    {
        if expr.arity().0 != 0 {
            return Signal::Failed(Error::ArityError);
        }
        self.execute(expr, budget)
    }

    /// Supplies the float that was asked for, by its bits.
    pub fn supply_float(&mut self, float: u64)
        requires
            old(self)@.sound(),
            old(self)@.pending is Arithmetic || old(self)@.pending is Literal,
        ensures
            final(self)@ == answer(old(self)@, Value::Float(float)),
            final(self)@.sound(),
    {
        proof {
            answer_sound(self@, Value::Float(float));
        }
        self.pending = Request::Nothing;
        self.push_float(float);
    }

    /// Supplies the truth that was asked for.
    pub fn supply_bool(&mut self, logic: bool)
        requires
            old(self)@.sound(),
            old(self)@.pending is Comparison,
        ensures
            final(self)@ == answer(old(self)@, Value::Bool(logic)),
            final(self)@.sound(),
    {
        proof {
            answer_sound(self@, Value::Bool(logic));
        }
        self.pending = Request::Nothing;
        self.push_bool(logic);
    }

    /// The retained stack, with its top last: empty between runs, after a
    /// run that failed as after one that came to its end.
    pub fn retained(&self) -> (r: &Vec<Data>)
        ensures
            values(r@) == self@.retained,
    {
        &self.retained
    }

    /// The stack, with its top last.
    pub fn stack(&self) -> (r: &Vec<Data>)
        ensures
            values(r@) == self@.stack,
    {
        &self.stack
    }

    /// What the machine waits for.
    pub fn pending(&self) -> (r: &Request)
        ensures
            r@ == self@.pending,
    {
        &self.pending
    }

    /// The failure that ended the run, if one did.
    pub fn failure(&self) -> (r: Option<Error>)
        ensures
            r == self@.failure,
    {
        self.failure
    }

    /// Whether nothing is left to do, nothing is waited for and nothing has
    /// failed.
    pub fn is_idle(&self) -> (r: bool)
        ensures
            r == self@.idle(),
    {
        self.control.len() == 0 && matches!(self.pending, Request::Nothing) && self.failure.is_none()
    }
}

} // verus!
