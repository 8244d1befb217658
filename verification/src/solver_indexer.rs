//! Interning of solver definitions: each distinct solver gets the next free
//! index when it is first met, and directives name it by that index.

use crate::statement::{
    solver_views, Solver, SolverRef, SolverRefView, SolverView, Statement, StatementView,
};
use vstd::prelude::*;

verus! {

/// The table after `s` was met, and `s` with its solver named by index.
pub open spec fn spec_index(table: Seq<SolverView>, s: StatementView) -> (
    Seq<SolverView>,
    StatementView,
) {
    match s {
        StatementView::Directive { inputs, outputs, solver: SolverRefView::Embedded(sv) } => {
            if table.contains(sv) {
                (
                    table,
                    StatementView::Directive {
                        inputs,
                        outputs,
                        solver: SolverRefView::Index(table.index_of(sv) as usize),
                    },
                )
            } else {
                (
                    table.push(sv),
                    StatementView::Directive {
                        inputs,
                        outputs,
                        solver: SolverRefView::Index(table.len() as usize),
                    },
                )
            }
        },
        _ => (table, s),
    }
}

/// The table and the rewritten statements after all of `stmts` were met in
/// order, starting from `table`.
pub open spec fn spec_index_all(table: Seq<SolverView>, stmts: Seq<StatementView>) -> (
    Seq<SolverView>,
    Seq<StatementView>,
)
    decreases stmts.len(),
{
    if stmts.len() == 0 {
        (table, Seq::empty())
    } else {
        let before = spec_index_all(table, stmts.drop_last());
        let step = spec_index(before.0, stmts.last());
        (step.0, before.1.push(step.1))
    }
}

pub struct SolverIndexer {
    pub solvers: Vec<Solver>,
}

impl View for SolverIndexer {
    type V = Seq<SolverView>;

    open spec fn view(&self) -> Seq<SolverView> {
        solver_views(self.solvers@)
    }
}

impl SolverIndexer {
    /// No solver stands in the table twice.
    pub open spec fn wf(&self) -> bool {
        self@.no_duplicates()
    }

    pub fn new() -> (r: SolverIndexer)
        ensures
            r@ == Seq::<SolverView>::empty(),
            r.wf(),
    {
        let r = SolverIndexer { solvers: Vec::new() };
        assert(r@ =~= Seq::<SolverView>::empty());
        r
    }

    /// Where `s` stands in the table, if it does.
    fn position(&self, s: &Solver) -> (r: Option<usize>)
        ensures
            match r {
                Some(i) => i < self@.len() && self@[i as int] == s@,
                None => !self@.contains(s@),
            },
    {
        let mut i: usize = 0;
        while i < self.solvers.len()
            invariant
                i <= self.solvers.len(),
                self@.len() == self.solvers.len(),
                forall|j: int| 0 <= j < i ==> self@[j] != s@,
            decreases self.solvers.len() - i,
        {
            if self.solvers[i] == *s {
                return Some(i);
            }
            i += 1;
        }
        None
    }

    /// Names the solver of a directive by its index in the table, entering
    /// it at the end if it is new. Any other statement comes back as it is.
    pub fn fold_statement(&mut self, s: Statement) -> (r: Statement)
        requires
            old(self).wf(),
        ensures
            final(self).wf(),
            (final(self)@, r@) == spec_index(old(self)@, s@),
            r@.is_indexed(),
    {
        match s {
            Statement::Directive { inputs, outputs, solver: SolverRef::Embedded(solver) } => {
                let ghost sv = solver@;
                let index = match self.position(&solver) {
                    Some(i) => {
                        assert(self@.contains(sv));
                        assert(self@.index_of(sv) == i);
                        i
                    },
                    None => {
                        let n = self.solvers.len();
                        self.solvers.push(solver);
                        assert(self@ =~= old(self)@.push(sv));
                        n
                    },
                };
                Statement::Directive { inputs, outputs, solver: SolverRef::Index(index) }
            },
            other => other,
        }
    }
}

/// Indexing leaves the variables of a statement, its kind and its payload
/// as they were.
pub proof fn lemma_index_keeps_roles(table: Seq<SolverView>, s: StatementView)
    ensures
        spec_index(table, s).1.is_constraint() == s.is_constraint(),
        spec_index(table, s).1.is_indexed(),
        s.is_indexed() ==> spec_index(table, s) == (table, s),
        s is Directive ==> spec_index(table, s).1 is Directive && spec_index(
            table,
            s,
        ).1->Directive_inputs == s->Directive_inputs && spec_index(table, s).1->Directive_outputs
            == s->Directive_outputs,
        !(s is Directive) ==> spec_index(table, s).1 == s,
{
}

/// Directives that all embed the same solver leave one entry in the table,
/// and each of them names index 0.
pub proof fn lemma_same_solver_one_entry(stmts: Seq<StatementView>, sv: SolverView)
    requires
        stmts.len() > 0,
        forall|i: int|
            0 <= i < stmts.len() ==> (#[trigger] stmts[i]) is Directive
                && stmts[i]->Directive_solver == SolverRefView::Embedded(sv),
    ensures
        spec_index_all(Seq::empty(), stmts).0 == seq![sv],
        spec_index_all(Seq::empty(), stmts).1.len() == stmts.len(),
        forall|i: int|
            0 <= i < stmts.len() ==> (#[trigger] spec_index_all(Seq::empty(), stmts).1[i])
                == (StatementView::Directive {
                inputs: stmts[i]->Directive_inputs,
                outputs: stmts[i]->Directive_outputs,
                solver: SolverRefView::Index(0),
            }),
    decreases stmts.len(),
{
    let table = seq![sv];
    let last = stmts.last();
    assert(last == stmts[stmts.len() - 1]);
    if stmts.len() == 1 {
        assert(stmts.drop_last().len() == 0);
        let before = spec_index_all(Seq::empty(), stmts.drop_last());
        assert(before.0 == Seq::<SolverView>::empty());
        assert(!before.0.contains(sv));
        assert(before.0.push(sv) =~= table);
    } else {
        let front = stmts.drop_last();
        assert forall|i: int| 0 <= i < front.len() implies (#[trigger] front[i]) is Directive
            && front[i]->Directive_solver == SolverRefView::Embedded(sv) by {
            assert(front[i] == stmts[i]);
        }
        lemma_same_solver_one_entry(front, sv);
        assert(table[0] == sv);
        assert(table.contains(sv));
        assert(table.index_of(sv) == 0);
        assert forall|i: int| 0 <= i < stmts.len() implies (#[trigger] spec_index_all(
            Seq::empty(),
            stmts,
        ).1[i]) == (StatementView::Directive {
            inputs: stmts[i]->Directive_inputs,
            outputs: stmts[i]->Directive_outputs,
            solver: SolverRefView::Index(0),
        }) by {
            if i < front.len() {
                assert(front[i] == stmts[i]);
                assert(spec_index_all(Seq::empty(), stmts).1[i] == spec_index_all(
                    Seq::empty(),
                    front,
                ).1[i]);
            }
        }
    }
}

} // verus!
