//! Stack effects and the two ways of combining them.

use vstd::prelude::*;

verus! {

/// How far `need` exceeds `have`, or zero when it does not.
pub open spec fn shortfall(need: nat, have: nat) -> nat {
    if need > have {
        (need - have) as nat
    } else {
        0
    }
}

/// The net stack effect of a fragment over the unbounded naturals: how many
/// values it consumes and how many it leaves.
pub struct Effect {
    pub inputs: nat,
    pub outputs: nat,
}

impl Effect {
    /// The effect with the given counts.
    pub open spec fn new(inputs: nat, outputs: nat) -> Effect {
        Effect { inputs, outputs }
    }

    /// The effect of a fragment that touches nothing.
    pub open spec fn none() -> Effect {
        Effect { inputs: 0, outputs: 0 }
    }

    /// The effect of pushing one value.
    pub open spec fn push() -> Effect {
        Effect { inputs: 0, outputs: 1 }
    }

    /// Two fragments side by side, each on operands of its own: demands and
    /// yields add up.
    pub open spec fn concat(self, other: Effect) -> Effect {
        Effect { inputs: self.inputs + other.inputs, outputs: self.outputs + other.outputs }
    }

    /// Two fragments in a pipeline. What `other` needs beyond the outputs of
    /// `self` is taken from below; what `self` leaves beyond the needs of
    /// `other` passes through.
    pub open spec fn compose(self, other: Effect) -> Effect {
        Effect {
            inputs: self.inputs + shortfall(other.inputs, self.outputs),
            outputs: other.outputs + shortfall(self.outputs, other.inputs),
        }
    }

    /// By how much the fragment changes the height of the stack.
    pub open spec fn net(self) -> int {
        self.outputs - self.inputs
    }

    /// Both counts can be held in 32 bits.
    pub open spec fn fits(self) -> bool {
        self.inputs <= u32::MAX && self.outputs <= u32::MAX
    }
}

/// A stack effect in machine integers: inputs consumed, outputs produced.
#[derive(Debug, Clone, Copy, PartialEq, Eq, Structural)]
pub struct Arity(pub u32, pub u32);

impl View for Arity {
    type V = Effect;

    open spec fn view(&self) -> Effect {
        Effect { inputs: self.0 as nat, outputs: self.1 as nat }
    }
}

impl Arity {
    /// The effect of two fragments side by side.
    pub fn concat(self, other: Arity) -> (r: Arity)
        requires
            self@.concat(other@).fits(),
        ensures
            r@ == self@.concat(other@),
    {
        Arity(self.0 + other.0, self.1 + other.1)
    }

    /// The effect of two fragments in a pipeline.
    pub fn compose(self, other: Arity) -> (r: Arity)
        requires
            self@.compose(other@).fits(),
        ensures
            r@ == self@.compose(other@),
    {
        let ar_in: u32 = self.0 + if other.0 > self.1 {
            other.0 - self.1
        } else {
            0
        };
        let ar_out: u32 = other.1 + if self.1 > other.0 {
            self.1 - other.0
        } else {
            0
        };
        Arity(ar_in, ar_out)
    }

    /// `concat`, or `None` when a count of the result exceeds 32 bits.
    pub fn checked_concat(self, other: Arity) -> (r: Option<Arity>)
        ensures
            r is Some <==> self@.concat(other@).fits(),
            r matches Some(a) ==> a@ == self@.concat(other@),
    {
        match (self.0.checked_add(other.0), self.1.checked_add(other.1)) {
            (Some(i), Some(o)) => Some(Arity(i, o)),
            _ => None,
        }
    }

    /// `compose`, or `None` when a count of the result exceeds 32 bits.
    pub fn checked_compose(self, other: Arity) -> (r: Option<Arity>)
        ensures
            r is Some <==> self@.compose(other@).fits(),
            r matches Some(a) ==> a@ == self@.compose(other@),
    {
        let short: u32 = if other.0 > self.1 {
            other.0 - self.1
        } else {
            0
        };
        let spare: u32 = if self.1 > other.0 {
            self.1 - other.0
        } else {
            0
        };
        match (self.0.checked_add(short), other.1.checked_add(spare)) {
            (Some(i), Some(o)) => Some(Arity(i, o)),
            _ => None,
        }
    }
}

/// The effect of a pipeline of fragments, folded from the left.
pub open spec fn pipeline(effects: Seq<Effect>) -> Effect
    decreases effects.len(),
{
    if effects.len() == 0 {
        Effect::none()
    } else {
        pipeline(effects.drop_last()).compose(effects.last())
    }
}

/// The effect of fragments side by side, folded from the left.
pub open spec fn abreast(effects: Seq<Effect>) -> Effect
    decreases effects.len(),
{
    if effects.len() == 0 {
        Effect::none()
    } else {
        abreast(effects.drop_last()).concat(effects.last())
    }
}

/// Pipelining is associative.
pub proof fn compose_associative(a: Effect, b: Effect, c: Effect)
    ensures
        a.compose(b).compose(c) == a.compose(b.compose(c)),
{
}

/// Placing side by side is associative.
pub proof fn concat_associative(a: Effect, b: Effect, c: Effect)
    ensures
        a.concat(b).concat(c) == a.concat(b.concat(c)),
{
}

/// The empty effect is a unit of both combinators, on either side.
pub proof fn none_is_unit(a: Effect)
    ensures
        Effect::none().compose(a) == a,
        a.compose(Effect::none()) == a,
        Effect::none().concat(a) == a,
        a.concat(Effect::none()) == a,
{
}

/// A pipeline changes the height of the stack by the sum of what its parts
/// change it by, and so does a juxtaposition.
pub proof fn net_is_additive(a: Effect, b: Effect)
    ensures
        a.compose(b).net() == a.net() + b.net(),
        a.concat(b).net() == a.net() + b.net(),
{
}

} // verus!
