//! Detection of variables that some statement defines and no constraint
//! reads.

use crate::statement::{Statement, StatementView};
use std::collections::HashSet;
use vstd::prelude::*;

verus! {

broadcast use vstd::std_specs::hash::group_hash_axioms;

/// The variables that `s` defines.
pub open spec fn produced_by(s: StatementView) -> Set<u64> {
    match s {
        StatementView::Constraint { outputs, .. } => outputs.to_set(),
        StatementView::Directive { outputs, .. } => outputs.to_set(),
        StatementView::Other { .. } => Set::empty(),
    }
}

/// The variables that `s` reads as a constraint.
pub open spec fn consumed_by(s: StatementView) -> Set<u64> {
    match s {
        StatementView::Constraint { inputs, .. } => inputs.to_set(),
        _ => Set::empty(),
    }
}

/// The variables that the statements of `stmts` define.
pub open spec fn produced_in(stmts: Seq<StatementView>) -> Set<u64>
    decreases stmts.len(),
{
    if stmts.len() == 0 {
        Set::empty()
    } else {
        produced_in(stmts.drop_last()).union(produced_by(stmts.last()))
    }
}

/// The variables that the constraints of `stmts` read.
pub open spec fn consumed_in(stmts: Seq<StatementView>) -> Set<u64>
    decreases stmts.len(),
{
    if stmts.len() == 0 {
        Set::empty()
    } else {
        consumed_in(stmts.drop_last()).union(consumed_by(stmts.last()))
    }
}

/// The variables of `stmts` that are defined and never read by a constraint.
pub open spec fn unconstrained_in(stmts: Seq<StatementView>) -> Set<u64> {
    produced_in(stmts).difference(consumed_in(stmts))
}

pub struct UnconstrainedVariableDetector {
    produced: Ghost<Set<u64>>,
    consumed: HashSet<u64>,
    pending: HashSet<u64>,
}

impl UnconstrainedVariableDetector {
    /// The variables defined so far.
    pub closed spec fn produced(&self) -> Set<u64> {
        self.produced@
    }

    /// The variables read by a constraint so far.
    pub closed spec fn consumed(&self) -> Set<u64> {
        self.consumed@
    }

    /// The variables defined so far that no constraint has read.
    pub open spec fn unconstrained(&self) -> Set<u64> {
        self.produced().difference(self.consumed())
    }

    pub closed spec fn wf(&self) -> bool {
        &&& self.pending@ == self.produced@.difference(self.consumed@)
        &&& self.pending@.finite()
    }

    pub fn new() -> (d: UnconstrainedVariableDetector)
        ensures
            d.wf(),
            d.produced() == Set::<u64>::empty(),
            d.consumed() == Set::<u64>::empty(),
    {
        let d = UnconstrainedVariableDetector {
            produced: Ghost(Set::empty()),
            consumed: HashSet::new(),
            pending: HashSet::new(),
        };
        assert(d.pending@ =~= d.produced@.difference(d.consumed@));
        d
    }

    fn produce(&mut self, vars: &Vec<u64>)
        requires
            old(self).wf(),
        ensures
            final(self).wf(),
            final(self).produced() == old(self).produced().union(vars@.to_set()),
            final(self).consumed() == old(self).consumed(),
    {
        let mut i: usize = 0;
        while i < vars.len()
            invariant
                i <= vars.len(),
                self.wf(),
                self.produced() == old(self).produced().union(vars@.take(i as int).to_set()),
                self.consumed() == old(self).consumed(),
            decreases vars.len() - i,
        {
            let v = vars[i];
            let ghost before = self.produced@;
            if !self.consumed.contains(&v) {
                self.pending.insert(v);
            }
            self.produced = Ghost(before.insert(v));
            proof {
                assert(vars@.take(i + 1) =~= vars@.take(i as int).push(v));
                lemma_to_set_push(vars@.take(i as int), v);
                assert(self.pending@ =~= self.produced@.difference(self.consumed@));
                assert(self.produced@ =~= old(self).produced().union(
                    vars@.take(i + 1).to_set(),
                ));
            }
            i += 1;
        }
        assert(vars@.take(vars.len() as int) =~= vars@);
    }

    fn consume(&mut self, vars: &Vec<u64>)
        requires
            old(self).wf(),
        ensures
            final(self).wf(),
            final(self).produced() == old(self).produced(),
            final(self).consumed() == old(self).consumed().union(vars@.to_set()),
    {
        let mut i: usize = 0;
        while i < vars.len()
            invariant
                i <= vars.len(),
                self.wf(),
                self.produced() == old(self).produced(),
                self.consumed() == old(self).consumed().union(vars@.take(i as int).to_set()),
            decreases vars.len() - i,
        {
            let v = vars[i];
            self.consumed.insert(v);
            self.pending.remove(&v);
            proof {
                assert(vars@.take(i + 1) =~= vars@.take(i as int).push(v));
                lemma_to_set_push(vars@.take(i as int), v);
                assert(self.pending@ =~= self.produced@.difference(self.consumed@));
                assert(self.consumed@ =~= old(self).consumed().union(
                    vars@.take(i + 1).to_set(),
                ));
            }
            i += 1;
        }
        assert(vars@.take(vars.len() as int) =~= vars@);
    }

    /// Records what `s` defines and reads, and hands `s` on unchanged.
    pub fn fold_statement(&mut self, s: Statement) -> (r: Vec<Statement>)
        requires
            old(self).wf(),
        ensures
            final(self).wf(),
            final(self).produced() == old(self).produced().union(produced_by(s@)),
            final(self).consumed() == old(self).consumed().union(consumed_by(s@)),
            r@ == seq![s],
    {
        match &s {
            Statement::Constraint { inputs, outputs, .. } => {
                self.produce(outputs);
                self.consume(inputs);
            },
            Statement::Directive { outputs, .. } => {
                self.produce(outputs);
                assert(self.consumed() =~= old(self).consumed().union(consumed_by(s@)));
            },
            Statement::Other { .. } => {
                assert(self.produced() =~= old(self).produced().union(produced_by(s@)));
                assert(self.consumed() =~= old(self).consumed().union(consumed_by(s@)));
            },
        }
        let mut r: Vec<Statement> = Vec::new();
        r.push(s);
        assert(r@ =~= seq![s]);
        r
    }

    /// Succeeds where every variable defined was read by a constraint;
    /// otherwise gives the number of those that were not.
    pub fn finalize(self) -> (r: Result<(), usize>)
        requires
            self.wf(),
        ensures
            match r {
                Ok(_) => self.unconstrained() == Set::<u64>::empty(),
                Err(n) => {
                    &&& self.unconstrained() != Set::<u64>::empty()
                    &&& self.unconstrained().finite()
                    &&& n == self.unconstrained().len()
                    &&& n > 0
                },
            },
    {
        if self.pending.is_empty() {
            Ok(())
        } else {
            let n = self.pending.len();
            proof {
                if n == 0 {
                    self.pending@.lemma_len0_is_empty();
                }
            }
            Err(n)
        }
    }
}

/// The set of a sequence with one more item is the set of the sequence
/// with that item added.
proof fn lemma_to_set_push(s: Seq<u64>, v: u64)
    ensures
        s.push(v).to_set() == s.to_set().insert(v),
{
    assert forall|x: u64| s.push(v).to_set().contains(x) <==> s.to_set().insert(v).contains(
        x,
    ) by {
        if s.push(v).contains(x) {
            let i = choose|i: int| 0 <= i < s.push(v).len() && s.push(v)[i] == x;
            if i < s.len() {
                assert(s[i] == x);
            }
        }
        if s.contains(x) {
            let i = choose|i: int| 0 <= i < s.len() && s[i] == x;
            assert(s.push(v)[i] == x);
        }
        if x == v {
            assert(s.push(v)[s.len() as int] == v);
        }
    }
    assert(s.push(v).to_set() =~= s.to_set().insert(v));
}

} // verus!
