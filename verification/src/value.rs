//! Runtime values.

use crate::ast::{Arited, Node};
use std::collections::VecDeque;
use vstd::prelude::*;
use vstd::std_specs::vecdeque::VecDequeAdditionalSpecFns;

verus! {

broadcast use vstd::std_specs::vecdeque::group_vec_dequeue_axioms;

/// A value on the stack of the machine.
///
/// A float is held by the bits of its IEEE 754 binary64 encoding. A
/// quotation owns its tree: no two values share anything.
#[derive(Debug, PartialEq)]
pub enum Data {
    Integer(i64),
    Float(u64),
    String(String),
    Bool(bool),
    List(VecDeque<Data>),
    Quotation(Box<Arited>),
}

/// The model of a runtime value.
pub enum Value {
    Integer(i64),
    Float(u64),
    Text(Seq<char>),
    Bool(bool),
    List(Seq<Value>),
    Quotation(Node),
}

/// The model of a runtime value.
pub open spec fn value(d: Data) -> Value
    decreases d,
{
    match d {
        Data::Integer(i) => Value::Integer(i),
        Data::Float(f) => Value::Float(f),
        Data::String(s) => Value::Text(s@),
        Data::Bool(b) => Value::Bool(b),
        Data::List(l) => Value::List(
            Seq::new(
                l.len() as nat,
                |i: int|
                    if 0 <= i < l.len() {
                        value(l[i])
                    } else {
                        Value::Bool(false)
                    },
            ),
        ),
        Data::Quotation(q) => Value::Quotation(q@),
    }
}

impl View for Data {
    type V = Value;

    open spec fn view(&self) -> Value {
        value(*self)
    }
}

/// The models of a sequence of runtime values.
pub open spec fn values(s: Seq<Data>) -> Seq<Value> {
    Seq::new(s.len(), |i: int| s[i]@)
}

/// The model of a list value holds the models of its items, in order.
pub proof fn list_model(l: VecDeque<Data>)
    ensures
        Data::List(l)@ == Value::List(values(l@)),
{
    assert(Data::List(l)@->List_0 =~= values(l@));
}

impl Value {
    /// Every quotation in the value holds a well-formed tree.
    pub open spec fn well_formed(self) -> bool
        decreases self,
    {
        match self {
            Value::List(l) => forall|i: int| 0 <= i < l.len() ==> (#[trigger] l[i]).well_formed(),
            Value::Quotation(n) => n.well_formed(),
            _ => true,
        }
    }
}

/// Every value of the sequence is well-formed.
pub open spec fn all_well_formed(s: Seq<Value>) -> bool {
    forall|i: int| 0 <= i < s.len() ==> (#[trigger] s[i]).well_formed()
}

impl Clone for Data {
    /// An independent copy of the value.
    fn clone(&self) -> (r: Data)
        ensures
            r@ == self@,
        decreases self,
    {
        match self {
            Data::Integer(i) => Data::Integer(*i),
            Data::Float(f) => Data::Float(*f),
            Data::String(s) => Data::String(s.clone()),
            Data::Bool(b) => Data::Bool(*b),
            Data::List(l) => {
                let mut out: VecDeque<Data> = VecDeque::new();
                let mut i: usize = 0;
                while i < l.len()
                    invariant
                        i <= l.len(),
                        out.len() == i,
                        self is List,
                        self->List_0 == *l,
                        forall|j: int| 0 <= j < i ==> (#[trigger] out[j])@ == l[j]@,
                    decreases l.len() - i,
                {
                    let c = l[i].clone();
                    out.push_back(c);
                    i += 1;
                }
                proof {
                    list_model(out);
                    list_model(*l);
                    assert(values(out@) =~= values(l@));
                }
                Data::List(out)
            },
            Data::Quotation(q) => Data::Quotation(Box::new((**q).clone())),
        }
    }
}

} // verus!
