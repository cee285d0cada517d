//! Runtime values, evaluation errors, and the real-number work that the
//! evaluator hands to its caller.
use vstd::prelude::*;

use crate::syntax::{Identifier, Op};

verus! {

/// A 32-bit IEEE-754 real number, held as its bit pattern. The library
/// compares reals by their bits and leaves their arithmetic to its caller
/// (see [`RealTask`]).
#[derive(Debug, PartialEq, Eq, Clone, Copy, Structural)]
pub struct Real {
    pub bits: u32,
}

#[derive(Debug, PartialEq, Clone)]
pub enum Val {
    Str(String),
    Real(Real),
    Bool(bool),
    Unit,
}

pub open spec fn view_vals(v: Seq<Val>) -> Seq<SpecVal> {
    Seq::new(v.len(), |i: int| v[i]@)
}

pub enum SpecVal {
    Str(Seq<char>),
    Real(Real),
    Bool(bool),
    Unit,
}

impl View for Val {
    type V = SpecVal;

    open spec fn view(&self) -> SpecVal {
        match self {
            Val::Str(s) => SpecVal::Str(s@),
            Val::Real(r) => SpecVal::Real(*r),
            Val::Bool(b) => SpecVal::Bool(*b),
            Val::Unit => SpecVal::Unit,
        }
    }
}

/// The name of a value's kind, as errors show it.
pub open spec fn type_label(v: SpecVal) -> Seq<char> {
    match v {
        SpecVal::Str(_) => "String"@,
        SpecVal::Unit => "()"@,
        SpecVal::Real(_) => "Real number"@,
        SpecVal::Bool(_) => "Boolean"@,
    }
}

impl Val {
    pub fn get_type(&self) -> (r: &'static str)
        ensures
            r@ == type_label(self@),
    {
        match self {
            Val::Str(_) => "String",
            Val::Unit => "()",
            Val::Real(_) => "Real number",
            Val::Bool(_) => "Boolean",
        }
    }

    /// A copy of this value.
    pub fn duplicate(&self) -> (r: Val)
        ensures
            r@ == self@,
    {
        match self {
            Val::Str(s) => Val::Str(s.clone()),
            Val::Real(r) => Val::Real(*r),
            Val::Bool(b) => Val::Bool(*b),
            Val::Unit => Val::Unit,
        }
    }
}

#[derive(Debug, PartialEq, Eq, Clone)]
pub enum EvalError {
    IdentifierNotFound(Identifier),
    /// A name holds a value where a function was wanted, or the other way round.
    InvalidStoredType,
    InvalidArgumentLen,
    ImmutableReassignment(Identifier),
    InvalidType { expected: String, received: String },
}

pub enum SpecEvalError {
    IdentifierNotFound(Seq<char>),
    InvalidStoredType,
    InvalidArgumentLen,
    ImmutableReassignment(Seq<char>),
    InvalidType(Seq<char>, Seq<char>),
}

impl View for EvalError {
    type V = SpecEvalError;

    open spec fn view(&self) -> SpecEvalError {
        match self {
            EvalError::IdentifierNotFound(id) => SpecEvalError::IdentifierNotFound(id@),
            EvalError::InvalidStoredType => SpecEvalError::InvalidStoredType,
            EvalError::InvalidArgumentLen => SpecEvalError::InvalidArgumentLen,
            EvalError::ImmutableReassignment(id) => SpecEvalError::ImmutableReassignment(id@),
            EvalError::InvalidType { expected, received } => SpecEvalError::InvalidType(
                expected@,
                received@,
            ),
        }
    }
}

/// Real-number work: turning decimal text into a real, or applying an
/// operator to two reals, both in IEEE-754 single precision.
#[derive(Debug, PartialEq, Clone)]
pub enum RealTask {
    Decimal(String),
    Apply(Op, Real, Real),
}

pub enum SpecRealTask {
    Decimal(Seq<char>),
    Apply(Op, Real, Real),
}

impl View for RealTask {
    type V = SpecRealTask;

    open spec fn view(&self) -> SpecRealTask {
        match self {
            RealTask::Decimal(t) => SpecRealTask::Decimal(t@),
            RealTask::Apply(o, a, b) => SpecRealTask::Apply(*o, *a, *b),
        }
    }
}

/// The outcome of a [`RealTask`], as the caller computed it.
#[derive(Debug, PartialEq, Clone)]
pub struct RealFact {
    pub task: RealTask,
    pub result: Real,
}

impl View for RealFact {
    type V = (SpecRealTask, Real);

    open spec fn view(&self) -> (SpecRealTask, Real) {
        (self.task@, self.result)
    }
}

pub open spec fn view_facts(facts: Seq<RealFact>) -> Seq<(SpecRealTask, Real)> {
    Seq::new(facts.len(), |i: int| facts[i]@)
}

/// The result that the first fact about `task` records.
pub open spec fn fact_for(facts: Seq<(SpecRealTask, Real)>, task: SpecRealTask) -> Option<Real>
    decreases facts.len(),
{
    if facts.len() == 0 {
        None
    } else if facts[0].0 == task {
        Some(facts[0].1)
    } else {
        fact_for(facts.subrange(1, facts.len() as int), task)
    }
}

/// Why evaluation stopped: an error of the program, or real-number work that
/// the given facts do not cover yet.
#[derive(Debug, PartialEq, Clone)]
pub enum Halt {
    Failed(EvalError),
    Pending(RealTask),
}

pub enum SpecHalt {
    Failed(SpecEvalError),
    Pending(SpecRealTask),
}

impl View for Halt {
    type V = SpecHalt;

    open spec fn view(&self) -> SpecHalt {
        match self {
            Halt::Failed(e) => SpecHalt::Failed(e@),
            Halt::Pending(t) => SpecHalt::Pending(t@),
        }
    }
}

impl RealTask {
    pub fn same_as(&self, other: &RealTask) -> (r: bool)
        ensures
            r == (self@ == other@),
    {
        match (self, other) {
            (RealTask::Decimal(a), RealTask::Decimal(b)) => a.eq(b),
            (RealTask::Apply(o1, a1, b1), RealTask::Apply(o2, a2, b2)) => *o1 == *o2 && *a1 == *a2
                && *b1 == *b2,
            _ => false,
        }
    }
}

/// The result that the first of `facts` about `task` records, if any.
pub fn find_fact(facts: &Vec<RealFact>, task: &RealTask) -> (r: Option<Real>)
    ensures
        r == fact_for(view_facts(facts@), task@),
{
    let ghost all = view_facts(facts@);
    assert(all.subrange(0, all.len() as int) =~= all);
    let mut i: usize = 0;
    while i < facts.len()
        invariant
            0 <= i <= facts.len(),
            all == view_facts(facts@),
            fact_for(all, task@) == fact_for(all.subrange(i as int, all.len() as int), task@),
        decreases facts.len() - i,
    {
        let ghost tail = all.subrange(i as int, all.len() as int);
        assert(tail[0] == facts@[i as int]@);
        assert(tail.subrange(1, tail.len() as int) =~= all.subrange(i + 1, all.len() as int));
        if facts[i].task.same_as(task) {
            return Some(facts[i].result);
        }
        i = i + 1;
    }
    None
}

} // verus!
