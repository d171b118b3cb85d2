//! The arity discipline at work: a machine that runs well-formed trees
//! never looks for a value that is not there.

use crate::arity::{
    abreast, compose_associative, concat_associative, net_is_additive, none_is_unit, pipeline,
    Effect,
};
use crate::ast::{effects, Node};
use crate::machine::{
    again, all_jobs_well_formed, answer, apply, branch, flows, perform, piped, ready, restore,
    sided, step, total_net, Job, State,
};
use crate::value::Value;
use crate::word::Word;
use vstd::prelude::*;

verus! {

/// A pipeline is its first fragment composed with the pipeline of the rest.
pub proof fn pipeline_front(es: Seq<Effect>)
    requires
        es.len() > 0,
    ensures
        pipeline(es) == es[0].compose(pipeline(es.drop_first())),
    decreases es.len(),
{
    if es.len() == 1 {
        assert(es.drop_last() =~= Seq::<Effect>::empty());
        assert(es.drop_first() =~= Seq::<Effect>::empty());
        none_is_unit(es[0]);
    } else {
        pipeline_front(es.drop_last());
        assert(es.drop_first().drop_last() =~= es.drop_last().drop_first());
        compose_associative(es[0], pipeline(es.drop_last().drop_first()), es.last());
    }
}

/// Fragments side by side are the first beside the rest.
pub proof fn abreast_front(es: Seq<Effect>)
    requires
        es.len() > 0,
    ensures
        abreast(es) == es[0].concat(abreast(es.drop_first())),
    decreases es.len(),
{
    if es.len() == 1 {
        assert(es.drop_last() =~= Seq::<Effect>::empty());
        assert(es.drop_first() =~= Seq::<Effect>::empty());
        none_is_unit(es[0]);
    } else {
        abreast_front(es.drop_last());
        assert(es.drop_first().drop_last() =~= es.drop_last().drop_first());
        concat_associative(es[0], abreast(es.drop_last().drop_first()), es.last());
    }
}

/// The jobs of a composition can be done from a stack that holds what the
/// composition consumes, and what comes after them finds the stack as the
/// composition leaves it.
pub proof fn piped_flows(control: Seq<Job>, c: Seq<Node>, height: int, kept: int)
    requires
        all_jobs_well_formed(control),
        forall|i: int| 0 <= i < c.len() ==> (#[trigger] c[i]).well_formed(),
        pipeline(effects(c)).inputs <= height,
        flows(control, height + pipeline(effects(c)).net(), kept),
    ensures
        flows(control + piped(c), height, kept),
        all_jobs_well_formed(control + piped(c)),
    decreases c.len(),
{
    if c.len() > 0 {
        let es = effects(c);
        let rest = c.drop_first();
        pipeline_front(es);
        assert(es.drop_first() =~= effects(rest));
        net_is_additive(es[0], pipeline(effects(rest)));
        piped_flows(control, rest, height + c[0].effect().net(), kept);
        let below = control + piped(rest);
        assert(below.push(Job::Run(c[0])).drop_last() =~= below);
    }
}

/// The jobs of a juxtaposition can be done when the retained stack holds
/// what the juxtaposition consumes, and what comes after them finds both
/// stacks as the juxtaposition leaves them.
pub proof fn sided_flows(control: Seq<Job>, c: Seq<Node>, height: int, kept: int)
    requires
        all_jobs_well_formed(control),
        forall|i: int| 0 <= i < c.len() ==> (#[trigger] c[i]).well_formed(),
        0 <= height,
        abreast(effects(c)).inputs <= kept,
        flows(control, height + abreast(effects(c)).outputs, kept - abreast(effects(c)).inputs),
    ensures
        flows(control + sided(c), height, kept),
        all_jobs_well_formed(control + sided(c)),
    decreases c.len(),
{
    if c.len() > 0 {
        let es = effects(c);
        let rest = c.drop_first();
        abreast_front(es);
        assert(es.drop_first() =~= effects(rest));
        let first = c[0].effect();
        sided_flows(control, rest, height + first.outputs, kept - first.inputs);
        let below = control + sided(rest);
        let run = Job::Run(c[0]);
        let back = Job::Restore(first.inputs);
        assert(below.push(run).push(back).drop_last() =~= below.push(run));
        assert(below.push(run).drop_last() =~= below);
        assert(flows(below.push(run), height + first.inputs, kept - first.inputs));
    }
}

/// Taking the next job from the work of a sound state that is neither
/// failed nor waiting leaves a state that is ready for the job.
pub proof fn sound_is_ready(s: State)
    requires
        s.sound(),
        s.failure is None,
        s.pending is Nothing,
        s.control.len() > 0,
    ensures
        ready(s.with_control(s.control.drop_last()), s.control.last()),
{
}

/// A word leaves a ready state sound.
pub proof fn apply_sound(s: State, w: Word)
    requires
        ready(s, Job::Run(Node::Word(w, w.effect()))),
    ensures
        apply(s, w).0.sound(),
{
    if w == Word::Rec {
        if let Value::Quotation(body) = s.peek(0) {
            if body.effect() == Effect::new(1, 2) {
                loop_flows(s.control, body, s.stack.len() as int, s.retained.len() as int);
            }
        }
    }
}

/// The body of a loop and the look at its flag behind it can be done from
/// a stack that holds the seed and one value more.
pub proof fn loop_flows(control: Seq<Job>, body: Node, height: int, kept: int)
    requires
        body.effect() == Effect::new(1, 2),
        height >= 2,
        flows(control, height - 1, kept),
    ensures
        flows(control.push(Job::Loop(body)).push(Job::Run(body)), height - 1, kept),
{
    let above = control.push(Job::Loop(body));
    assert(above.push(Job::Run(body)).drop_last() =~= above);
    assert(above.drop_last() =~= control);
    assert(flows(above, height, kept));
}

/// Running a tree leaves a ready state sound.
pub proof fn perform_sound(s: State, n: Node)
    requires
        ready(s, Job::Run(n)),
    ensures
        perform(s, n).0.sound(),
{
    let h = s.stack.len() as int;
    let k = s.retained.len() as int;
    match n {
        Node::Composition(c, e) => {
            piped_flows(s.control, c, h, k);
        },
        Node::Concatenation(c, e) => {
            sided_flows(s.control, c, h - e.inputs, k + e.inputs);
        },
        Node::Question(cons, alter, e) => {
            let after = branch(s, *cons, *alter).0;
            if after.failure is None {
                assert(after.control.drop_last() =~= s.control);
            }
        },
        Node::Word(w, e) => {
            apply_sound(s, w);
        },
        _ => {},
    }
}

/// Moving values back leaves a ready state sound.
pub proof fn restore_sound(s: State, n: nat)
    requires
        ready(s, Job::Restore(n)),
    ensures
        restore(s, n).sound(),
{
}

/// Looking at the flag of a loop leaves a ready state sound.
pub proof fn again_sound(s: State, body: Node)
    requires
        ready(s, Job::Loop(body)),
    ensures
        again(s, body).0.sound(),
{
    if s.peek(0) == Value::Bool(true) {
        loop_flows(s.control, body, s.stack.len() as int, s.retained.len() as int);
    }
}

/// A step leaves a sound state sound.
pub proof fn step_sound(s: State)
    requires
        s.sound(),
    ensures
        step(s).0.sound(),
{
    if s.failure is None && s.pending is Nothing && s.control.len() > 0 {
        sound_is_ready(s);
        let rest = s.with_control(s.control.drop_last());
        match s.control.last() {
            Job::Run(n) => perform_sound(rest, n),
            Job::Restore(k) => restore_sound(rest, k),
            Job::Loop(body) => again_sound(rest, body),
        }
    }
}

/// The jobs of a composition change the height by what its pipeline does.
pub proof fn piped_net(control: Seq<Job>, c: Seq<Node>)
    ensures
        total_net(control + piped(c)) == total_net(control) + pipeline(effects(c)).net(),
    decreases c.len(),
{
    if c.len() > 0 {
        let es = effects(c);
        let rest = c.drop_first();
        pipeline_front(es);
        assert(es.drop_first() =~= effects(rest));
        net_is_additive(es[0], pipeline(effects(rest)));
        piped_net(control, rest);
        one_more_net(control + piped(rest), Job::Run(c[0]));
    }
}

/// The jobs of a juxtaposition raise the stack by what its children yield:
/// what they consume comes from the retained stack.
pub proof fn sided_net(control: Seq<Job>, c: Seq<Node>)
    ensures
        total_net(control + sided(c)) == total_net(control) + abreast(effects(c)).outputs,
    decreases c.len(),
{
    if c.len() > 0 {
        let es = effects(c);
        let rest = c.drop_first();
        abreast_front(es);
        assert(es.drop_first() =~= effects(rest));
        sided_net(control, rest);
        let below = control + sided(rest);
        one_more_net(below, Job::Run(c[0]));
        one_more_net(below.push(Job::Run(c[0])), Job::Restore(c[0].effect().inputs));
    }
}

/// One more job changes the height by what it does.
pub proof fn one_more_net(control: Seq<Job>, job: Job)
    ensures
        total_net(control.push(job)) == total_net(control) + job.net(),
{
    assert(control.push(job).drop_last() =~= control);
}

/// The body of a loop and the look at its flag behind it leave one value
/// less than they find.
pub proof fn loop_net(control: Seq<Job>, body: Node)
    requires
        body.effect() == Effect::new(1, 2),
    ensures
        total_net(control.push(Job::Loop(body)).push(Job::Run(body))) == total_net(control),
{
    one_more_net(control, Job::Loop(body));
    one_more_net(control.push(Job::Loop(body)), Job::Run(body));
}

/// A step that does not fail keeps the height at which the stack will be
/// when all work is done.
pub proof fn step_keeps_landing(s: State)
    requires
        s.sound(),
    ensures
        step(s).0.failure is None ==> step(s).0.landing() == s.landing(),
{
    if s.failure is None && s.pending is Nothing && s.control.len() > 0 {
        sound_is_ready(s);
        let rest = s.with_control(s.control.drop_last());
        let job = s.control.last();
        let after = step(s).0;
        if after.failure is None {
            match job {
                Job::Run(n) => {
                    match n {
                        Node::Composition(c, e) => {
                            piped_net(rest.control, c);
                        },
                        Node::Concatenation(c, e) => {
                            sided_net(rest.control, c);
                        },
                        Node::Question(cons, alter, e) => {
                            one_more_net(rest.control, Job::Run(*cons));
                            one_more_net(rest.control, Job::Run(*alter));
                        },
                        Node::Word(w, e) => {
                            if w == Word::Rec {
                                if let Value::Quotation(body) = rest.peek(0) {
                                    loop_net(rest.control, body);
                                }
                            }
                        },
                        _ => {},
                    }
                },
                Job::Restore(k) => {},
                Job::Loop(body) => {
                    loop_net(rest.control, body);
                },
            }
        }
    }
}

/// The answer of the host keeps the height at which the stack will be when
/// all work is done.
pub proof fn answer_keeps_landing(s: State, v: Value)
    requires
        s.pending !is Nothing,
    ensures
        answer(s, v).landing() == s.landing(),
{
}

/// A fresh machine is sound.
pub proof fn fresh_is_sound()
    ensures
        State::fresh().sound(),
{
}

/// Between runs nothing is retained: the retained stack of a sound state
/// with nothing left to do is empty.
pub proof fn idle_retains_nothing(s: State)
    requires
        s.sound(),
        s.idle(),
    ensures
        s.retained.len() == 0,
{
}

/// After a failure nothing is retained: the retained stack of a sound
/// state that has failed is empty.
pub proof fn failure_retains_nothing(s: State)
    requires
        s.sound(),
        s.failure is Some,
    ensures
        s.retained.len() == 0,
{
}

/// A failing step discards what was retained.
pub proof fn failing_step_retains_nothing(s: State)
    requires
        s.sound(),
    ensures
        step(s).1 is Failed ==> step(s).0.retained.len() == 0,
{
    step_sound(s);
}

/// The answer of the host leaves a sound state sound.
pub proof fn answer_sound(s: State, v: Value)
    requires
        s.sound(),
        s.pending !is Nothing,
        v.well_formed(),
    ensures
        answer(s, v).sound(),
{
}

} // verus!
