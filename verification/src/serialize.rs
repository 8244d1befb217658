//! Writing a program into a container: the sections in their fixed order,
//! the statements passed through solver indexing and the check for
//! unconstrained variables on their way out, the header patched in last.

use crate::cbor::{
    cbor_modules, cbor_parameters, cbor_solvers, cbor_statement, encode_modules,
    encode_parameters, encode_solvers, encode_statement, module_records_view,
    solver_records_view, StatementRecordView,
};
use crate::check::{
    consumed_by, consumed_in, produced_by, produced_in, unconstrained_in,
    UnconstrainedVariableDetector,
};
use crate::format::{
    header_encoding, lemma_header_len, magic_bytes, version_bytes, ProgHeader, Section,
    SectionType, FILE_VERSION, HEADER_LEN, PREAMBLE_LEN, ZOKRATES_MAGIC,
};
use crate::parameter::Parameter;
use crate::solver_indexer::{spec_index_all, SolverIndexer};
use crate::statement::{
    solver_views, statement_views, Solver, SolverRef, SolverRefView, SolverView, Statement,
    StatementView,
};
use vstd::prelude::*;

verus! {

/// Which module each module hash stands for.
#[derive(Debug, Clone, PartialEq, Eq)]
pub struct ModuleMap {
    pub modules: Vec<(u64, String)>,
}

/// A program: its parameters, its statements held as `I`, the number of
/// values it returns, its module map and its solver table.
#[derive(Debug, PartialEq, Eq)]
pub struct ProgIterator<I> {
    pub arguments: Vec<Parameter<u64>>,
    pub statements: I,
    pub return_count: usize,
    pub module_map: ModuleMap,
    pub solvers: Vec<Solver>,
}

/// A program with its statements in memory.
pub type Prog = ProgIterator<Vec<Statement>>;

impl ModuleMap {
    pub fn new(modules: Vec<(u64, String)>) -> (m: ModuleMap)
        ensures
            m.modules == modules,
    {
        ModuleMap { modules }
    }
}

impl Default for ModuleMap {
    fn default() -> (m: ModuleMap)
        ensures
            m.modules@ == Seq::<(u64, String)>::empty(),
    {
        ModuleMap { modules: Vec::new() }
    }
}

impl<I> ProgIterator<I> {
    pub fn new(
        arguments: Vec<Parameter<u64>>,
        statements: I,
        return_count: usize,
        module_map: ModuleMap,
        solvers: Vec<Solver>,
    ) -> (p: Self)
        ensures
            p == (ProgIterator { arguments, statements, return_count, module_map, solvers }),
    {
        ProgIterator { arguments, statements, return_count, module_map, solvers }
    }
}

impl Default for ProgIterator<Vec<Statement>> {
    /// The empty program.
    fn default() -> (p: Self)
        ensures
            p.arguments@ == Seq::<Parameter<u64>>::empty(),
            p.statements@ == Seq::<Statement>::empty(),
            p.return_count == 0,
            p.module_map.modules@ == Seq::<(u64, String)>::empty(),
            p.solvers@ == Seq::<Solver>::empty(),
    {
        ProgIterator {
            arguments: Vec::new(),
            statements: Vec::new(),
            return_count: 0,
            module_map: ModuleMap { modules: Vec::new() },
            solvers: Vec::new(),
        }
    }
}

#[derive(Debug, PartialEq, Eq, Clone, Copy, Structural)]
pub enum SerializeError {
    /// The encoder failed on the payload of this section.
    SectionEncodeFailure(SectionType),
    /// This many variables are defined and read by no constraint. The whole
    /// container was written all the same, and is not to be used.
    UnconstrainedVariable(usize),
}

/// Each parameter as the pair that is encoded for it.
pub open spec fn parameter_records(args: Seq<Parameter<u64>>) -> Seq<(u64, bool)> {
    args.map_values(|p: Parameter<u64>| (p.id, p.private))
}

/// Each solver as the triple that is encoded for it.
pub open spec fn solver_records(table: Seq<SolverView>) -> Seq<(Seq<char>, u64, u64)> {
    table.map_values(|s: SolverView| (s.name, s.inputs, s.outputs))
}

/// A statement as the record that is encoded for it: kind 0 for a
/// constraint, 1 for a directive, 2 for any other.
pub open spec fn statement_record(s: StatementView) -> StatementRecordView {
    match s {
        StatementView::Constraint { inputs, outputs, payload } => (
            0u8,
            inputs,
            outputs,
            0u64,
            payload,
        ),
        StatementView::Directive { inputs, outputs, solver } => (
            1u8,
            inputs,
            outputs,
            match solver {
                SolverRefView::Index(i) => i as u64,
                SolverRefView::Embedded(_) => 0u64,
            },
            Seq::empty(),
        ),
        StatementView::Other { payload } => (2u8, Seq::empty(), Seq::empty(), 0u64, payload),
    }
}

/// The encodings of the statements' records one after the other; `None`
/// where the encoder fails on one of them.
pub open spec fn constraints_payload(stmts: Seq<StatementView>) -> Option<Seq<u8>>
    decreases stmts.len(),
{
    if stmts.len() == 0 {
        Some(Seq::empty())
    } else {
        match (
            constraints_payload(stmts.drop_last()),
            cbor_statement(statement_record(stmts.last())),
        ) {
            (Some(front), Some(last)) => Some(front + last),
            _ => None,
        }
    }
}

/// How many of the statements are constraints.
pub open spec fn constraint_count(stmts: Seq<StatementView>) -> nat
    decreases stmts.len(),
{
    if stmts.len() == 0 {
        0
    } else {
        constraint_count(stmts.drop_last()) + if stmts.last().is_constraint() {
            1nat
        } else {
            0nat
        }
    }
}

pub open spec fn zeros(n: nat) -> Seq<u8> {
    Seq::new(n, |i: int| 0u8)
}

/// The section table of a container that starts at `start` in its sink and
/// holds the four given payloads.
pub open spec fn section_table(
    start: nat,
    parameters: Seq<u8>,
    constraints: Seq<u8>,
    solvers: Seq<u8>,
    modules: Seq<u8>,
) -> Seq<Section> {
    let p = start + PREAMBLE_LEN + HEADER_LEN;
    let c = p + parameters.len();
    let s = c + constraints.len();
    let m = s + solvers.len();
    seq![
        Section { ty: SectionType::Parameters, offset: p as u64, length: parameters.len() as u64 },
        Section {
            ty: SectionType::Constraints,
            offset: c as u64,
            length: constraints.len() as u64,
        },
        Section { ty: SectionType::Solvers, offset: s as u64, length: solvers.len() as u64 },
        Section { ty: SectionType::Modules, offset: m as u64, length: modules.len() as u64 },
    ]
}

/// The bytes of a container: magic, version, header, then the four
/// payloads.
pub open spec fn container(
    curve_id: Seq<u8>,
    constraint_count: u32,
    return_count: u32,
    start: nat,
    parameters: Seq<u8>,
    constraints: Seq<u8>,
    solvers: Seq<u8>,
    modules: Seq<u8>,
) -> Seq<u8> {
    magic_bytes() + version_bytes() + header_encoding(
        curve_id,
        constraint_count,
        return_count,
        section_table(start, parameters, constraints, solvers, modules),
    ) + parameters + constraints + solvers + modules
}

fn push_zeros(w: &mut Vec<u8>, n: usize)
    ensures
        final(w)@ == old(w)@ + zeros(n as nat),
{
    let mut i: usize = 0;
    while i < n
        invariant
            i <= n,
            w@ == old(w)@ + zeros(i as nat),
        decreases n - i,
    {
        w.push(0u8);
        assert(w@ =~= old(w)@ + zeros((i + 1) as nat));
        i += 1;
    }
}

/// Writes `bytes` over what `w` holds from `at` on.
fn overwrite(w: &mut Vec<u8>, at: usize, bytes: &Vec<u8>)
    requires
        at + bytes@.len() <= old(w)@.len(),
    ensures
        final(w)@ == old(w)@.subrange(0, at as int) + bytes@ + old(w)@.subrange(
            at + bytes@.len(),
            old(w)@.len() as int,
        ),
{
    let n = bytes.len();
    let total = w.len();
    let mut i: usize = 0;
    while i < n
        invariant
            i <= n,
            n == bytes@.len(),
            at + n <= total,
            total == w@.len(),
            total == old(w)@.len(),
            w@ == old(w)@.subrange(0, at as int) + bytes@.take(i as int) + old(w)@.subrange(
                at + i,
                total as int,
            ),
        decreases n - i,
    {
        w.set(at + i, bytes[i]);
        assert(w@ =~= old(w)@.subrange(0, at as int) + bytes@.take(i + 1) + old(w)@.subrange(
            at + i + 1,
            total as int,
        ));
        i += 1;
    }
    assert(bytes@.take(n as int) =~= bytes@);
}

/// The same items in the opposite order.
fn reversed(v: Vec<Statement>) -> (r: Vec<Statement>)
    ensures
        r@.len() == v@.len(),
        forall|j: int| 0 <= j < r@.len() ==> #[trigger] r@[j] == v@[v@.len() - 1 - j],
{
    let ghost all = v@;
    let mut v = v;
    let mut r: Vec<Statement> = Vec::new();
    while v.len() > 0
        invariant
            v@.len() + r@.len() == all.len(),
            forall|j: int| 0 <= j < v@.len() ==> #[trigger] v@[j] == all[j],
            forall|j: int| 0 <= j < r@.len() ==> #[trigger] r@[j] == all[all.len() - 1 - j],
        decreases v@.len(),
    {
        let s = v.pop().unwrap();
        r.push(s);
    }
    r
}

fn parameter_list(args: &Vec<Parameter<u64>>) -> (r: Vec<(u64, bool)>)
    ensures
        r@ == parameter_records(args@),
{
    let mut r: Vec<(u64, bool)> = Vec::new();
    let mut i: usize = 0;
    while i < args.len()
        invariant
            i <= args.len(),
            r@ == parameter_records(args@.take(i as int)),
        decreases args.len() - i,
    {
        r.push(args[i].key());
        assert(r@ =~= parameter_records(args@.take(i + 1)));
        i += 1;
    }
    assert(args@.take(args.len() as int) =~= args@);
    r
}

fn solver_list(solvers: &Vec<Solver>) -> (r: Vec<(String, u64, u64)>)
    ensures
        solver_records_view(r@) == solver_records(solver_views(solvers@)),
{
    let mut r: Vec<(String, u64, u64)> = Vec::new();
    let mut i: usize = 0;
    while i < solvers.len()
        invariant
            i <= solvers.len(),
            r@.len() == i,
            forall|j: int|
                0 <= j < i ==> (#[trigger] r@[j]).0@ == solvers@[j].name@ && r@[j].1
                    == solvers@[j].inputs && r@[j].2 == solvers@[j].outputs,
        decreases solvers.len() - i,
    {
        let s = &solvers[i];
        r.push((s.name.clone(), s.inputs, s.outputs));
        i += 1;
    }
    assert(solver_records_view(r@) =~= solver_records(solver_views(solvers@)));
    r
}

/// The encoding of the record of `s`, if the encoder gives one.
fn encode_record(s: &Statement) -> (r: Option<Vec<u8>>)
    requires
        s@.is_indexed(),
    ensures
        match r {
            Some(b) => cbor_statement(statement_record(s@)) == Some(b@),
            None => cbor_statement(statement_record(s@)) is None,
        },
{
    let no_vars: Vec<u64> = Vec::new();
    let no_bytes: Vec<u8> = Vec::new();
    let r = match s {
        Statement::Constraint { inputs, outputs, payload } => encode_statement(
            0,
            inputs,
            outputs,
            0,
            payload,
        ),
        Statement::Directive { inputs, outputs, solver } => {
            let index: u64 = match solver {
                SolverRef::Index(i) => *i as u64,
                SolverRef::Embedded(_) => 0,
            };
            encode_statement(1, inputs, outputs, index, &no_bytes)
        },
        Statement::Other { payload } => encode_statement(2, &no_vars, &no_vars, 0, payload),
    };
    match r {
        Ok(b) => Some(b),
        Err(_) => None,
    }
}

/// Appends the encoded records of `stmts` to `w`; gives `false`, and stops,
/// where the encoder fails on one.
fn write_records(stmts: &Vec<Statement>, w: &mut Vec<u8>) -> (ok: bool)
    requires
        forall|j: int| 0 <= j < stmts@.len() ==> (#[trigger] stmts@[j])@.is_indexed(),
    ensures
        match constraints_payload(statement_views(stmts@)) {
            Some(b) => ok && final(w)@ == old(w)@ + b,
            None => !ok,
        },
{
    let ghost views = statement_views(stmts@);
    let ghost mut acc: Seq<u8> = Seq::empty();
    let mut i: usize = 0;
    while i < stmts.len()
        invariant
            i <= stmts.len(),
            views == statement_views(stmts@),
            forall|j: int| 0 <= j < stmts@.len() ==> (#[trigger] stmts@[j])@.is_indexed(),
            constraints_payload(views.take(i as int)) == Some(acc),
            w@ == old(w)@ + acc,
        decreases stmts.len() - i,
    {
        proof {
            assert(views.take(i + 1).drop_last() =~= views.take(i as int));
            assert(views.take(i + 1).last() == stmts@[i as int]@);
        }
        match encode_record(&stmts[i]) {
            Some(mut b) => {
                proof {
                    acc = acc + b@;
                }
                w.append(&mut b);
                assert(w@ =~= old(w)@ + acc);
            },
            None => {
                proof {
                    lemma_payload_none_extends(views, i + 1);
                }
                return false;
            },
        }
        i += 1;
    }
    assert(views.take(stmts.len() as int) =~= views);
    true
}

/// Where the encoder fails on the first `k` statements, it fails on all.
pub proof fn lemma_payload_none_extends(stmts: Seq<StatementView>, k: int)
    requires
        0 <= k <= stmts.len(),
        constraints_payload(stmts.take(k)) is None,
    ensures
        constraints_payload(stmts) is None,
    decreases stmts.len(),
{
    if k == stmts.len() {
        assert(stmts.take(k) =~= stmts);
    } else {
        assert(stmts.drop_last().take(k) =~= stmts.take(k));
        lemma_payload_none_extends(stmts.drop_last(), k);
    }
}

/// The payload of a list with one more statement is the payload of the
/// list followed by the encoding of that statement.
pub proof fn lemma_payload_push(stmts: Seq<StatementView>, s: StatementView)
    ensures
        constraints_payload(stmts.push(s)) == (match (
            constraints_payload(stmts),
            cbor_statement(statement_record(s)),
        ) {
            (Some(front), Some(last)) => Some(front + last),
            _ => None::<Seq<u8>>,
        }),
        constraints_payload(seq![s]) == cbor_statement(statement_record(s)),
{
    assert(stmts.push(s).drop_last() =~= stmts);
    assert(seq![s].drop_last() =~= Seq::<StatementView>::empty());
    assert(constraints_payload(Seq::<StatementView>::empty()) == Some(Seq::<u8>::empty()));
    assert(seq![s].last() == s);
    match cbor_statement(statement_record(s)) {
        Some(b) => {
            assert(Seq::<u8>::empty() + b =~= b);
        },
        None => {},
    }
}

/// Indexing a prefix of the statements gives the prefix of the indexed
/// statements.
pub proof fn lemma_index_all_prefix(table: Seq<SolverView>, stmts: Seq<StatementView>, k: int)
    requires
        0 <= k <= stmts.len(),
    ensures
        spec_index_all(table, stmts).1.len() == stmts.len(),
        spec_index_all(table, stmts.take(k)).1 == spec_index_all(table, stmts).1.take(k),
    decreases stmts.len(),
{
    if stmts.len() > 0 {
        lemma_index_all_prefix(table, stmts.drop_last(), stmts.len() - 1);
    }
    if k == stmts.len() {
        assert(stmts.take(k) =~= stmts);
        assert(spec_index_all(table, stmts).1.take(k) =~= spec_index_all(table, stmts).1);
    } else {
        assert(stmts.drop_last().take(k) =~= stmts.take(k));
        lemma_index_all_prefix(table, stmts.drop_last(), k);
        assert(spec_index_all(table, stmts).1.take(k) =~= spec_index_all(
            table,
            stmts.drop_last(),
        ).1.take(k));
    }
}

impl ProgIterator<Vec<Statement>> {
    /// The solver table and the statements after solver indexing.
    pub open spec fn indexed(&self) -> (Seq<SolverView>, Seq<StatementView>) {
        spec_index_all(Seq::empty(), statement_views(self.statements@))
    }

    pub open spec fn parameters_payload(&self) -> Option<Seq<u8>> {
        cbor_parameters(parameter_records(self.arguments@))
    }

    pub open spec fn statements_payload(&self) -> Option<Seq<u8>> {
        constraints_payload(self.indexed().1)
    }

    pub open spec fn solvers_payload(&self) -> Option<Seq<u8>> {
        cbor_solvers(solver_records(self.indexed().0))
    }

    pub open spec fn modules_payload(&self) -> Option<Seq<u8>> {
        cbor_modules(module_records_view(self.module_map.modules@))
    }

    /// The first section, in file order, on whose payload the encoder fails.
    pub open spec fn first_failure(&self) -> Option<SectionType> {
        if self.parameters_payload() is None {
            Some(SectionType::Parameters)
        } else if self.statements_payload() is None {
            Some(SectionType::Constraints)
        } else if self.solvers_payload() is None {
            Some(SectionType::Solvers)
        } else if self.modules_payload() is None {
            Some(SectionType::Modules)
        } else {
            None
        }
    }

    /// The container of this program for the curve `curve_id`, written at
    /// `start` in its sink.
    pub open spec fn image(&self, curve_id: Seq<u8>, start: nat) -> Seq<u8> {
        container(
            curve_id,
            constraint_count(statement_views(self.statements@)) as u32,
            self.return_count as u32,
            start,
            self.parameters_payload().unwrap(),
            self.statements_payload().unwrap(),
            self.solvers_payload().unwrap(),
            self.modules_payload().unwrap(),
        )
    }

    /// Writes the program to the end of `w` as one container and gives the
    /// number of constraints written. The solvers that directives embed are
    /// entered into the solver table in the order in which they are met.
    /// Where some variable is defined and read by no constraint, the
    /// container is complete and the call fails.
    pub fn serialize(self, curve_id: [u8; 4], w: &mut Vec<u8>) -> (r: Result<
        usize,
        SerializeError,
    >)
        ensures
            match r {
                Ok(n) => {
                    &&& self.first_failure() is None
                    &&& unconstrained_in(statement_views(self.statements@)) == Set::<u64>::empty()
                    &&& n == constraint_count(statement_views(self.statements@))
                    &&& final(w)@ == old(w)@ + self.image(curve_id@, old(w)@.len())
                },
                Err(SerializeError::UnconstrainedVariable(k)) => {
                    &&& self.first_failure() is None
                    &&& unconstrained_in(statement_views(self.statements@)) != Set::<u64>::empty()
                    &&& k == unconstrained_in(statement_views(self.statements@)).len()
                    &&& k > 0
                    &&& final(w)@ == old(w)@ + self.image(curve_id@, old(w)@.len())
                },
                Err(SerializeError::SectionEncodeFailure(ty)) => self.first_failure() == Some(ty),
            },
    {
        let ghost pre = w@;
        let ProgIterator { arguments, statements, return_count, module_map, solvers: _ } = self;

        let header_start = write_preamble(w);
        let ghost reserved = w@;

        let offset = w.len();
        let records = parameter_list(&arguments);
        match encode_parameters(&records) {
            Ok(mut b) => {
                w.append(&mut b);
            },
            Err(_) => {
                return Err(SerializeError::SectionEncodeFailure(SectionType::Parameters));
            },
        }
        let parameters = section_between(SectionType::Parameters, offset, w.len());
        let ghost p_bytes = self.parameters_payload().unwrap();

        let mut solver_indexer = SolverIndexer::new();
        let mut detector = UnconstrainedVariableDetector::new();
        let offset = w.len();
        let count = match write_constraints(statements, w, &mut solver_indexer, &mut detector) {
            Some(count) => count,
            None => {
                return Err(SerializeError::SectionEncodeFailure(SectionType::Constraints));
            },
        };
        let constraints = section_between(SectionType::Constraints, offset, w.len());
        let ghost c_bytes = self.statements_payload().unwrap();

        let offset = w.len();
        let records = solver_list(&solver_indexer.solvers);
        match encode_solvers(&records) {
            Ok(mut b) => {
                w.append(&mut b);
            },
            Err(_) => {
                return Err(SerializeError::SectionEncodeFailure(SectionType::Solvers));
            },
        }
        let solvers = section_between(SectionType::Solvers, offset, w.len());
        let ghost s_bytes = self.solvers_payload().unwrap();

        let offset = w.len();
        match encode_modules(&module_map.modules) {
            Ok(mut b) => {
                w.append(&mut b);
            },
            Err(_) => {
                return Err(SerializeError::SectionEncodeFailure(SectionType::Modules));
            },
        }
        let modules = section_between(SectionType::Modules, offset, w.len());
        let ghost m_bytes = self.modules_payload().unwrap();
        assert(w@ == reserved + p_bytes + c_bytes + s_bytes + m_bytes);

        let header = ProgHeader {
            curve_id,
            constraint_count: #[verifier::truncate] (count as u32),
            return_count: #[verifier::truncate] (return_count as u32),
            sections: [parameters, constraints, solvers, modules],
        };
        let mut encoded: Vec<u8> = Vec::new();
        header.write(&mut encoded);
        proof {
            lemma_header_len(header);
            assert(encoded@ =~= header.encoding());
            assert(header.sections@ =~= section_table(
                pre.len(),
                p_bytes,
                c_bytes,
                s_bytes,
                m_bytes,
            ));
            lemma_patched(pre, encoded@, p_bytes, c_bytes, s_bytes, m_bytes);
        }
        overwrite(w, header_start, &encoded);

        match detector.finalize() {
            Ok(_) => Ok(count),
            Err(k) => Err(SerializeError::UnconstrainedVariable(k)),
        }
    }
}

/// Writes magic and version and sets the header's room aside; gives the
/// place where the header starts.
fn write_preamble(w: &mut Vec<u8>) -> (header_start: usize)
    ensures
        final(w)@ == old(w)@ + magic_bytes() + version_bytes() + zeros(HEADER_LEN as nat),
        header_start == old(w)@.len() + PREAMBLE_LEN,
{
    w.push(ZOKRATES_MAGIC[0]);
    w.push(ZOKRATES_MAGIC[1]);
    w.push(ZOKRATES_MAGIC[2]);
    w.push(ZOKRATES_MAGIC[3]);
    w.push(FILE_VERSION[0]);
    w.push(FILE_VERSION[1]);
    w.push(FILE_VERSION[2]);
    w.push(FILE_VERSION[3]);
    assert(w@ =~= old(w)@ + magic_bytes() + version_bytes());
    let header_start = w.len();
    push_zeros(w, HEADER_LEN);
    header_start
}

/// The table entry of a section that runs from `offset` to `end`.
fn section_between(ty: SectionType, offset: usize, end: usize) -> (s: Section)
    requires
        offset <= end,
    ensures
        s == (Section { ty, offset: offset as u64, length: (end - offset) as u64 }),
{
    let mut section = Section::new(ty);
    section.set_offset(offset as u64);
    section.set_length((end - offset) as u64);
    section
}

/// Passes each statement through solver indexing and the check for
/// unconstrained variables, and appends the record of what comes out to
/// `w`. Gives the number of constraints among the statements, or `None`
/// where the encoder fails on a record.
fn write_constraints(
    statements: Vec<Statement>,
    w: &mut Vec<u8>,
    solver_indexer: &mut SolverIndexer,
    detector: &mut UnconstrainedVariableDetector,
) -> (r: Option<usize>)
    requires
        old(solver_indexer)@ == Seq::<SolverView>::empty(),
        old(detector).wf(),
        old(detector).produced() == Set::<u64>::empty(),
        old(detector).consumed() == Set::<u64>::empty(),
    ensures
        match r {
            Some(count) => {
                &&& constraints_payload(
                    spec_index_all(Seq::empty(), statement_views(statements@)).1,
                ) matches Some(b) && final(w)@ == old(w)@ + b
                &&& final(solver_indexer)@ == spec_index_all(
                    Seq::empty(),
                    statement_views(statements@),
                ).0
                &&& final(detector).wf()
                &&& final(detector).produced() == produced_in(statement_views(statements@))
                &&& final(detector).consumed() == consumed_in(statement_views(statements@))
                &&& count == constraint_count(statement_views(statements@))
            },
            None => constraints_payload(
                spec_index_all(Seq::empty(), statement_views(statements@)).1,
            ) is None,
        },
{
    let ghost views = statement_views(statements@);
    let n = statements.len();
    let mut rest = reversed(statements);
    let mut count: usize = 0;
    let ghost mut rewritten: Seq<StatementView> = Seq::empty();
    let ghost mut acc: Seq<u8> = Seq::empty();
    let mut i: usize = 0;
    proof {
        assert(views.take(0) =~= Seq::<StatementView>::empty());
        assert(w@ =~= old(w)@ + acc);
        assert(solver_indexer@.no_duplicates());
    }
    while i < n
        invariant
            i <= n,
            n == views.len(),
            views == statement_views(statements@),
            rest@.len() == n - i,
            forall|j: int| 0 <= j < n - i ==> (#[trigger] rest@[j])@ == views[n - 1 - j],
            solver_indexer.wf(),
            detector.wf(),
            (solver_indexer@, rewritten) == spec_index_all(Seq::empty(), views.take(i as int)),
            detector.produced() == produced_in(views.take(i as int)),
            detector.consumed() == consumed_in(views.take(i as int)),
            count == constraint_count(views.take(i as int)),
            count <= i,
            constraints_payload(rewritten) == Some(acc),
            w@ == old(w)@ + acc,
        decreases n - i,
    {
        let s = rest.pop().unwrap();
        let ghost sv = s@;
        proof {
            assert(sv == views[i as int]);
            assert(views.take(i + 1).drop_last() =~= views.take(i as int));
            assert(views.take(i + 1).last() == sv);
        }
        if s.is_constraint() {
            count += 1;
        }
        let s = solver_indexer.fold_statement(s);
        let ghost tv = s@;
        proof {
            assert(produced_by(tv) == produced_by(sv));
            assert(consumed_by(tv) == consumed_by(sv));
            lemma_payload_push(rewritten, tv);
        }
        let out = detector.fold_statement(s);
        proof {
            assert(statement_views(out@) =~= seq![tv]);
        }
        let ok = write_records(&out, w);
        if !ok {
            proof {
                let step = spec_index_all(Seq::empty(), views.take(i + 1));
                assert(step.1 == rewritten.push(tv));
                assert(constraints_payload(step.1) is None);
                lemma_index_all_prefix(Seq::empty(), views, i + 1);
                assert(spec_index_all(Seq::empty(), views).1.take(i + 1) == step.1);
                lemma_payload_none_extends(spec_index_all(Seq::empty(), views).1, i + 1);
            }
            return None;
        }
        proof {
            let b = cbor_statement(statement_record(tv)).unwrap();
            assert(w@ =~= old(w)@ + (acc + b));
            acc = acc + b;
            rewritten = rewritten.push(tv);
        }
        i += 1;
    }
    proof {
        assert(views.take(n as int) =~= views);
    }
    Some(count)
}

/// Writing the header over the room set aside for it leaves the
/// container: what stood before, magic, version, header, and the payloads.
proof fn lemma_patched(
    pre: Seq<u8>,
    header: Seq<u8>,
    p: Seq<u8>,
    c: Seq<u8>,
    s: Seq<u8>,
    m: Seq<u8>,
)
    requires
        header.len() == HEADER_LEN,
    ensures
        ({
            let before = pre + magic_bytes() + version_bytes() + zeros(HEADER_LEN as nat) + p + c
                + s + m;
            let at = pre.len() + PREAMBLE_LEN;
            before.subrange(0, at as int) + header + before.subrange(
                at + header.len(),
                before.len() as int,
            ) == pre + (magic_bytes() + version_bytes() + header + p + c + s + m)
        }),
{
    let before = pre + magic_bytes() + version_bytes() + zeros(HEADER_LEN as nat) + p + c + s + m;
    let at = pre.len() + PREAMBLE_LEN;
    let after = before.subrange(0, at as int) + header + before.subrange(
        at + header.len(),
        before.len() as int,
    );
    let want = pre + (magic_bytes() + version_bytes() + header + p + c + s + m);
    assert(after.len() == want.len());
    assert(after =~= want);
}

} // verus!
