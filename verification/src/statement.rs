//! Statements of a program, as far as the container and its two passes read
//! them: which variables a statement takes and gives, which solver a
//! directive names, and an opaque payload for everything else.

use vstd::prelude::*;

verus! {

/// An external computation, known by name and by how many values it takes
/// and gives.
#[derive(Debug, Clone)]
pub struct Solver {
    pub name: String,
    pub inputs: u64,
    pub outputs: u64,
}

pub ghost struct SolverView {
    pub name: Seq<char>,
    pub inputs: u64,
    pub outputs: u64,
}

impl View for Solver {
    type V = SolverView;

    open spec fn view(&self) -> SolverView {
        SolverView { name: self.name@, inputs: self.inputs, outputs: self.outputs }
    }
}

impl Solver {
    pub fn new(name: String, inputs: u64, outputs: u64) -> (s: Solver)
        ensures
            s@ == (SolverView { name: name@, inputs, outputs }),
    {
        Solver { name, inputs, outputs }
    }
}

impl PartialEq for Solver {
    fn eq(&self, other: &Solver) -> (b: bool) {
        self.name == other.name && self.inputs == other.inputs && self.outputs == other.outputs
    }
}

impl Eq for Solver {

}

impl vstd::std_specs::cmp::PartialEqSpecImpl for Solver {
    open spec fn obeys_eq_spec() -> bool {
        true
    }

    open spec fn eq_spec(&self, other: &Solver) -> bool {
        self@ == other@
    }
}

/// How a directive names its solver: by the definition itself, or by the
/// definition's place in the program's solver table.
#[derive(Debug, Clone, PartialEq, Eq)]
pub enum SolverRef {
    Embedded(Solver),
    Index(usize),
}

pub ghost enum SolverRefView {
    Embedded(SolverView),
    Index(usize),
}

impl View for SolverRef {
    type V = SolverRefView;

    open spec fn view(&self) -> SolverRefView {
        match self {
            SolverRef::Embedded(s) => SolverRefView::Embedded(s@),
            SolverRef::Index(i) => SolverRefView::Index(*i),
        }
    }
}

#[derive(Debug, Clone, PartialEq, Eq)]
pub enum Statement {
    /// A relation that the proof system enforces. `inputs` are the variables
    /// it reads, `outputs` those it defines; `payload` holds the relation
    /// itself, which this library carries and does not read.
    Constraint { inputs: Vec<u64>, outputs: Vec<u64>, payload: Vec<u8> },
    /// A call of a solver that computes `outputs` from `inputs` outside the
    /// constraint system.
    Directive { inputs: Vec<u64>, outputs: Vec<u64>, solver: SolverRef },
    /// Any other statement; the passes hand it on as it is.
    Other { payload: Vec<u8> },
}

pub ghost enum StatementView {
    Constraint { inputs: Seq<u64>, outputs: Seq<u64>, payload: Seq<u8> },
    Directive { inputs: Seq<u64>, outputs: Seq<u64>, solver: SolverRefView },
    Other { payload: Seq<u8> },
}

impl View for Statement {
    type V = StatementView;

    open spec fn view(&self) -> StatementView {
        match self {
            Statement::Constraint { inputs, outputs, payload } => StatementView::Constraint {
                inputs: inputs@,
                outputs: outputs@,
                payload: payload@,
            },
            Statement::Directive { inputs, outputs, solver } => StatementView::Directive {
                inputs: inputs@,
                outputs: outputs@,
                solver: solver@,
            },
            Statement::Other { payload } => StatementView::Other { payload: payload@ },
        }
    }
}

impl StatementView {
    pub open spec fn is_constraint(self) -> bool {
        self is Constraint
    }

    /// The statement embeds no solver definition.
    pub open spec fn is_indexed(self) -> bool {
        match self {
            StatementView::Directive { solver: SolverRefView::Embedded(_), .. } => false,
            _ => true,
        }
    }
}

impl Statement {
    pub fn is_constraint(&self) -> (b: bool)
        ensures
            b == self@.is_constraint(),
    {
        match self {
            Statement::Constraint { .. } => true,
            _ => false,
        }
    }
}

/// The views of a list of statements, one for one.
pub open spec fn statement_views(s: Seq<Statement>) -> Seq<StatementView> {
    s.map_values(|x: Statement| x@)
}

/// The views of a list of solvers, one for one.
pub open spec fn solver_views(s: Seq<Solver>) -> Seq<SolverView> {
    s.map_values(|x: Solver| x@)
}

} // verus!
