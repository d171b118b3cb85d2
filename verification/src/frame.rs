//! Runs of the machine, and what a run does not touch: the values below
//! those that it was started on, the retained values of others, and the
//! work that waits behind its own.

use crate::ast::Node;
use crate::machine::{
    again, answer, apply, drive, flows, perform, restore, retain, sided, step, Job, Pending, State,
};
use crate::sound::{
    answer_keeps_landing, answer_sound, sound_is_ready, step_keeps_landing, step_sound,
};
use crate::machine::total_net;
use crate::value::{all_well_formed, Value};
use crate::word::Word;
use vstd::prelude::*;

verus! {

/// What the host of the machine computes: the float that a literal stands
/// for, the number that an arithmetic word makes of two floats, and the
/// truth of a comparison of two floats.
pub struct Host {
    pub literal: spec_fn(Seq<char>) -> u64,
    pub arithmetic: spec_fn(Word, u64, u64) -> u64,
    pub comparison: spec_fn(Word, u64, u64) -> bool,
}

/// The state after the host has supplied what the machine waits for, if it
/// waits for anything.
pub open spec fn supplied(s: State, host: Host) -> State {
    match s.pending {
        Pending::Literal(t) => answer(s, Value::Float((host.literal)(t))),
        Pending::Arithmetic(w, l, r) => answer(s, Value::Float((host.arithmetic)(w, l, r))),
        Pending::Comparison(w, l, r) => answer(s, Value::Bool((host.comparison)(w, l, r))),
        Pending::Nothing => s,
    }
}

/// One step of the machine, and the answer of the host if the machine then
/// waits for one.
pub open spec fn advance(s: State, host: Host) -> State {
    supplied(step(s).0, host)
}

/// `n` steps of the machine with its host.
pub open spec fn advance_by(s: State, n: nat, host: Host) -> State
    decreases n,
{
    if n == 0 {
        s
    } else {
        advance_by(advance(s, host), (n - 1) as nat, host)
    }
}

/// The state in which the tree is to be run on the stack, and nothing else
/// is there.
pub open spec fn starts(n: Node, stack: Seq<Value>) -> State {
    State {
        stack,
        retained: Seq::empty(),
        control: seq![Job::Run(n)],
        pending: Pending::Nothing,
        failure: None,
    }
}

/// The state in which the stack is left, and nothing else is there.
pub open spec fn ends(stack: Seq<Value>) -> State {
    State {
        stack,
        retained: Seq::empty(),
        control: Seq::empty(),
        pending: Pending::Nothing,
        failure: None,
    }
}

/// Run on `input`, with this host, the tree comes to an end and leaves
/// `output`.
pub open spec fn yields(n: Node, input: Seq<Value>, output: Seq<Value>, host: Host) -> bool {
    exists|k: nat| advance_by(starts(n, input), k, host) == ends(output)
}

/// What lies around a run: the values below its own on the stack, the
/// retained values below its own, and the work behind its own.
pub struct Frame {
    pub below: Seq<Value>,
    pub kept: Seq<Value>,
    pub rest: Seq<Job>,
}

/// The state within the frame.
pub open spec fn framed(s: State, f: Frame) -> State {
    State {
        stack: f.below + s.stack,
        retained: f.kept + s.retained,
        control: f.rest + s.control,
        pending: s.pending,
        failure: s.failure,
    }
}

/// States with the same contents are the same.
pub proof fn same_state(x: State, y: State)
    requires
        x.stack =~= y.stack,
        x.retained =~= y.retained,
        x.control =~= y.control,
        x.pending == y.pending,
        x.failure == y.failure,
    ensures
        x == y,
{
}

/// A word does within a frame what it does without, if the stack holds
/// what it consumes, and the word does not fail or the frame keeps nothing:
/// a failure discards all that is retained.
pub proof fn apply_framed(s: State, w: Word, f: Frame)
    requires
        w.effect().inputs <= s.stack.len(),
        apply(s, w).0.failure is None || f.kept.len() == 0,
    ensures
        apply(framed(s, f), w) == (framed(apply(s, w).0, f), apply(s, w).1),
{
    same_state(apply(framed(s, f), w).0, framed(apply(s, w).0, f));
}

/// Retaining does within a frame what it does without.
pub proof fn retain_framed(s: State, n: nat, f: Frame)
    requires
        n <= s.stack.len(),
    ensures
        retain(framed(s, f), n) == framed(retain(s, n), f),
{
    same_state(retain(framed(s, f), n), framed(retain(s, n), f));
}

/// Restoring does within a frame what it does without.
pub proof fn restore_framed(s: State, n: nat, f: Frame)
    requires
        n <= s.retained.len(),
    ensures
        restore(framed(s, f), n) == framed(restore(s, n), f),
{
    same_state(restore(framed(s, f), n), framed(restore(s, n), f));
}

/// Running a tree does within a frame what it does without, if the stack
/// holds what the tree needs, and the step does not fail or the frame keeps
/// nothing.
pub proof fn perform_framed(s: State, n: Node, f: Frame)
    requires
        n.well_formed(),
        n.demand() <= s.stack.len(),
        perform(s, n).0.failure is None || f.kept.len() == 0,
    ensures
        perform(framed(s, f), n) == (framed(perform(s, n).0, f), perform(s, n).1),
{
    match n {
        Node::Concatenation(c, e) => retain_framed(s, e.inputs, f),
        Node::Word(w, _) => apply_framed(s, w, f),
        _ => {},
    }
    same_state(perform(framed(s, f), n).0, framed(perform(s, n).0, f));
}

/// Looking at the flag of a loop does within a frame what it does without,
/// if it does not fail or the frame keeps nothing.
pub proof fn again_framed(s: State, body: Node, f: Frame)
    requires
        1 <= s.stack.len(),
        again(s, body).0.failure is None || f.kept.len() == 0,
    ensures
        again(framed(s, f), body) == (framed(again(s, body).0, f), again(s, body).1),
{
    same_state(again(framed(s, f), body).0, framed(again(s, body).0, f));
}

/// A step of a sound state that is not idle is the same step within a
/// frame, if it does not fail or the frame keeps nothing.
pub proof fn step_framed(s: State, f: Frame)
    requires
        s.sound(),
        !s.idle(),
        step(s).0.failure is None || f.kept.len() == 0,
    ensures
        step(framed(s, f)) == (framed(step(s).0, f), step(s).1),
{
    let big = framed(s, f);
    if s.failure is None && s.pending is Nothing {
        sound_is_ready(s);
        let rest = s.with_control(s.control.drop_last());
        let big_rest = big.with_control(big.control.drop_last());
        same_state(big_rest, framed(rest, f));
        match s.control.last() {
            Job::Run(n) => perform_framed(rest, n, f),
            Job::Restore(k) => restore_framed(rest, k, f),
            Job::Loop(body) => again_framed(rest, body, f),
        }
    }
}

/// A step with the host leaves a sound state sound.
pub proof fn advance_sound(s: State, host: Host)
    requires
        s.sound(),
    ensures
        advance(s, host).sound(),
{
    step_sound(s);
    let next = step(s).0;
    match next.pending {
        Pending::Literal(t) => answer_sound(next, Value::Float((host.literal)(t))),
        Pending::Arithmetic(w, l, r) => answer_sound(next, Value::Float((host.arithmetic)(w, l, r))),
        Pending::Comparison(w, l, r) => answer_sound(next, Value::Bool((host.comparison)(w, l, r))),
        Pending::Nothing => {},
    }
}

/// A step with the host of a sound state that is not idle is the same step
/// within a frame, if it does not fail or the frame keeps nothing.
pub proof fn advance_framed(s: State, host: Host, f: Frame)
    requires
        s.sound(),
        !s.idle(),
        advance(s, host).failure is None || f.kept.len() == 0,
    ensures
        advance(framed(s, f), host) == framed(advance(s, host), f),
{
    step_framed(s, f);
    let next = step(s).0;
    if next.pending !is Nothing {
        let v = match next.pending {
            Pending::Literal(t) => Value::Float((host.literal)(t)),
            Pending::Arithmetic(w, l, r) => Value::Float((host.arithmetic)(w, l, r)),
            Pending::Comparison(w, l, r) => Value::Bool((host.comparison)(w, l, r)),
            Pending::Nothing => Value::Bool(false),
        };
        same_state(answer(framed(next, f), v), framed(answer(next, v), f));
    }
}

/// An idle state stays as it is.
pub proof fn idle_stays(s: State, n: nat, host: Host)
    requires
        s.idle(),
    ensures
        advance_by(s, n, host) == s,
    decreases n,
{
    if n > 0 {
        idle_stays(s, (n - 1) as nat, host);
    }
}

/// Steps can be made in two parts.
pub proof fn advance_by_sum(s: State, m: nat, n: nat, host: Host)
    ensures
        advance_by(s, m + n, host) == advance_by(advance_by(s, m, host), n, host),
    decreases m,
{
    if m > 0 {
        advance_by_sum(advance(s, host), (m - 1) as nat, n, host);
    }
}

/// A run of a sound state that comes to an end is the same run within a
/// frame: in as many steps as it takes to become idle, the framed state
/// becomes the frame around the end.
pub proof fn run_framed(s: State, k: nat, host: Host, f: Frame) -> (m: nat)
    requires
        s.sound(),
        advance_by(s, k, host).idle(),
    ensures
        advance_by(framed(s, f), m, host) == framed(advance_by(s, k, host), f),
    decreases k,
{
    if s.idle() {
        idle_stays(s, k, host);
        0
    } else {
        advance_sound(s, host);
        if advance(s, host).failure is Some {
            failure_stays(advance(s, host), (k - 1) as nat, host);
        }
        advance_framed(s, host, f);
        let m = run_framed(advance(s, host), (k - 1) as nat, host, f);
        m + 1
    }
}

/// A tree run on the values that it needs, above other values, leaves
/// them as they are and puts what it yields in place of its own.
pub proof fn run_above(n: Node, input: Seq<Value>, output: Seq<Value>, host: Host, f: Frame) -> (m: nat)
    requires
        n.well_formed(),
        all_well_formed(input),
        n.demand() <= input.len(),
        yields(n, input, output, host),
    ensures
        advance_by(framed(starts(n, input), f), m, host) == framed(ends(output), f),
{
    let k = choose|k: nat| advance_by(starts(n, input), k, host) == ends(output);
    let s = starts(n, input);
    assert(flows(s.control.drop_last(), input.len() + n.effect().net(), 0));
    run_framed(s, k, host, f)
}

/// Driving the machine is making steps with its host: the state that the
/// steps reach within a budget, once the host has supplied what the last
/// step asked for, is the state after as many steps with the host as were
/// made.
pub proof fn drive_advances(s: State, budget: nat, host: Host) -> (k: nat)
    requires
        s.pending is Nothing,
    ensures
        k <= budget,
        supplied(drive(s, budget).0, host) == advance_by(s, k, host),
    decreases budget,
{
    if budget == 0 {
        0
    } else if step(s).1 is Continue {
        drive_advances(step(s).0, (budget - 1) as nat, host) + 1
    } else {
        assert(advance_by(s, 1, host) == advance(s, host)) by {
            reveal_with_fuel(advance_by, 2);
        }
        1
    }
}

/// A failed state stays failed.
pub proof fn failure_stays(s: State, n: nat, host: Host)
    requires
        s.failure is Some,
    ensures
        advance_by(s, n, host).failure is Some,
    decreases n,
{
    if n > 0 {
        failure_stays(advance(s, host), (n - 1) as nat, host);
    }
}

/// Steps that do not fail keep the height at which the stack will be when
/// all work is done.
pub proof fn advance_by_keeps_landing(s: State, n: nat, host: Host)
    requires
        s.sound(),
        advance_by(s, n, host).failure is None,
    ensures
        advance_by(s, n, host).landing() == s.landing(),
    decreases n,
{
    if n > 0 {
        let next = step(s).0;
        let after = advance(s, host);
        step_sound(s);
        advance_sound(s, host);
        if after.failure is Some {
            failure_stays(after, (n - 1) as nat, host);
        }
        step_keeps_landing(s);
        match next.pending {
            Pending::Literal(t) => answer_keeps_landing(next, Value::Float((host.literal)(t))),
            Pending::Arithmetic(w, l, r) => answer_keeps_landing(
                next,
                Value::Float((host.arithmetic)(w, l, r)),
            ),
            Pending::Comparison(w, l, r) => answer_keeps_landing(
                next,
                Value::Bool((host.comparison)(w, l, r)),
            ),
            Pending::Nothing => {},
        }
        advance_by_keeps_landing(after, (n - 1) as nat, host);
    }
}

/// The arity of a tree is exact: run to its end on a stack that holds what
/// it needs, a well-formed tree changes the height of the stack by the
/// outputs of its arity less the inputs.
pub proof fn arity_is_exact(n: Node, input: Seq<Value>, output: Seq<Value>, host: Host)
    requires
        n.well_formed(),
        all_well_formed(input),
        n.demand() <= input.len(),
        yields(n, input, output, host),
    ensures
        output.len() == input.len() + n.effect().net(),
{
    let k = choose|k: nat| advance_by(starts(n, input), k, host) == ends(output);
    let s = starts(n, input);
    assert(flows(s.control.drop_last(), input.len() + n.effect().net(), 0));
    advance_by_keeps_landing(s, k, host);
    assert(total_net(s.control) == n.effect().net()) by {
        reveal_with_fuel(total_net, 2);
    }
}

/// The juxtaposition of two trees.
pub open spec fn juxtaposed(a: Node, b: Node) -> Node {
    Node::Concatenation(seq![a, b], a.effect().concat(b.effect()))
}

/// Two trees side by side, run on a stack that holds exactly what the first
/// consumes and above it what the second consumes, leave what the first
/// leaves when run on its share alone, and above it what the second leaves
/// when run on its share alone.
pub proof fn juxtaposition_round_trip(
    a: Node,
    b: Node,
    share_a: Seq<Value>,
    share_b: Seq<Value>,
    left_a: Seq<Value>,
    left_b: Seq<Value>,
    host: Host,
)
    requires
        a.well_formed(),
        b.well_formed(),
        all_well_formed(share_a),
        all_well_formed(share_b),
        share_a.len() == a.effect().inputs,
        share_b.len() == b.effect().inputs,
        yields(a, share_a, left_a, host),
        yields(b, share_b, left_b, host),
    ensures
        yields(juxtaposed(a, b), share_a + share_b, left_a + left_b, host),
{
    let both = juxtaposed(a, b);
    let empty = Seq::<Value>::empty();
    let s0 = starts(both, share_a + share_b);
    // The juxtaposition retains both shares and schedules its children.
    let s1 = advance(s0, host);
    let back_b = Job::Restore(b.effect().inputs);
    let back_a = Job::Restore(a.effect().inputs);
    let pair = seq![a, b];
    assert(sided(pair) =~= seq![Job::Run(b), back_b, Job::Run(a), back_a]) by {
        reveal_with_fuel(sided, 3);
    }
    let turned = (share_a + share_b).reverse();
    let work1 = seq![Job::Run(b), back_b, Job::Run(a), back_a];
    let e1 = State { stack: empty, retained: turned, control: work1, pending: Pending::Nothing, failure: None };
    same_state(s1, e1);
    // The share of the first child comes back.
    let s2 = advance(s1, host);
    let f_a = Frame { below: empty, kept: share_b.reverse(), rest: seq![Job::Run(b), back_b] };
    same_state(s2, framed(starts(a, share_a), f_a));
    // The first child runs.
    let m_a = run_above(a, share_a, left_a, host, f_a);
    let s3 = advance_by(s2, m_a, host);
    // The share of the second child comes back.
    let s4 = advance(s3, host);
    let f_b = Frame { below: left_a, kept: empty, rest: Seq::<Job>::empty() };
    same_state(s4, framed(starts(b, share_b), f_b));
    // The second child runs.
    let m_b = run_above(b, share_b, left_b, host, f_b);
    let s5 = advance_by(s4, m_b, host);
    same_state(s5, ends(left_a + left_b));
    // All steps together.
    assert(advance_by(s0, 2, host) == s2) by {
        reveal_with_fuel(advance_by, 3);
    }
    advance_by_sum(s0, 2, m_a, host);
    assert(advance_by(s3, 1, host) == s4) by {
        reveal_with_fuel(advance_by, 2);
    }
    advance_by_sum(s0, 2 + m_a, 1, host);
    advance_by_sum(s0, 2 + m_a + 1, m_b, host);
}

} // verus!
