//! Reading a program back from a container: parameters, solvers and module
//! map at once, the statements one by one as they are asked for.

use crate::cbor::{
    cbor_modules_at, cbor_parameters_at, cbor_solvers_at, cbor_statement_at, decode_modules,
    decode_parameters, decode_solvers, decode_statement, module_records_view,
    solver_records_view, statement_record_view, StatementRecord, StatementRecordView,
};
use crate::format::{
    header_fault, lemma_header_fields_round_trip, section_at, ProgHeader, SectionType,
};
use crate::parameter::Parameter;
use crate::serialize::{
    container, parameter_records, section_table, solver_records, statement_record, ModuleMap,
    ProgIterator,
};
use vstd::bytes::spec_u32_from_le_bytes;
use crate::statement::{
    solver_views, statement_views, Solver, SolverRef, SolverRefView, Statement, StatementView,
};
use vstd::prelude::*;
use vstd::slice::slice_subrange;

verus! {

#[derive(Debug, PartialEq, Eq, Clone, Copy, Structural)]
pub enum DecodeError {
    /// The container was written for another curve than the one asked for.
    CurveMismatch,
    /// The payload of this section could not be decoded.
    SectionDecodeFailure(SectionType),
}

/// The statement that a record stands for, if its kind is known and its
/// solver index fits the machine.
pub open spec fn record_statement(r: StatementRecordView) -> Option<StatementView> {
    if r.0 == 0 {
        Some(StatementView::Constraint { inputs: r.1, outputs: r.2, payload: r.4 })
    } else if r.0 == 1 && r.3 <= usize::MAX {
        Some(
            StatementView::Directive {
                inputs: r.1,
                outputs: r.2,
                solver: SolverRefView::Index(r.3 as usize),
            },
        )
    } else if r.0 == 2 {
        Some(StatementView::Other { payload: r.4 })
    } else {
        None
    }
}

/// The statement at the front of `data` and the number of bytes it takes;
/// `None` where `data` is empty or does not start with a well-formed record.
pub open spec fn first_statement(data: Seq<u8>) -> Option<(StatementView, usize)> {
    if data.len() == 0 {
        None
    } else {
        match cbor_statement_at(data) {
            Some((record, used)) => if 0 < used <= data.len() {
                match record_statement(record) {
                    Some(s) => Some((s, used)),
                    None => None,
                }
            } else {
                None
            },
            None => None,
        }
    }
}

/// The statements that `data` holds one after the other, up to its end or
/// to the first record that cannot be read.
pub open spec fn decode_all(data: Seq<u8>) -> Seq<StatementView>
    decreases data.len(),
{
    match first_statement(data) {
        Some((s, used)) => if 0 < used <= data.len() {
            seq![s] + decode_all(data.subrange(used as int, data.len() as int))
        } else {
            Seq::empty()
        },
        None => Seq::empty(),
    }
}

/// The bytes of a section: from `offset` on, `length` of them, as far as
/// `bytes` reach.
pub open spec fn section_bytes(bytes: Seq<u8>, offset: u64, length: u64) -> Seq<u8> {
    let start = if offset <= bytes.len() {
        offset as int
    } else {
        bytes.len() as int
    };
    let end = if start + length <= bytes.len() {
        start + length
    } else {
        bytes.len() as int
    };
    bytes.subrange(start, end)
}

/// Everything in `bytes` from `offset` on; `None` where `bytes` end before.
pub open spec fn tail_at(bytes: Seq<u8>, offset: u64) -> Option<Seq<u8>> {
    if offset <= bytes.len() {
        Some(bytes.subrange(offset as int, bytes.len() as int))
    } else {
        None
    }
}

pub open spec fn parameters_at(bytes: Seq<u8>, offset: u64) -> Option<Seq<(u64, bool)>> {
    match tail_at(bytes, offset) {
        Some(t) => cbor_parameters_at(t),
        None => None,
    }
}

pub open spec fn solvers_at(bytes: Seq<u8>, offset: u64) -> Option<Seq<(Seq<char>, u64, u64)>> {
    match tail_at(bytes, offset) {
        Some(t) => cbor_solvers_at(t),
        None => None,
    }
}

pub open spec fn modules_at(bytes: Seq<u8>, offset: u64) -> Option<Seq<(u64, Seq<char>)>> {
    match tail_at(bytes, offset) {
        Some(t) => cbor_modules_at(t),
        None => None,
    }
}

/// The first thing that stops `bytes` from being read as a program under
/// `header` for the curve `curve_id`.
pub open spec fn read_fault(bytes: Seq<u8>, header: ProgHeader, curve_id: Seq<u8>) -> Option<
    DecodeError,
> {
    if header.curve_id@ != curve_id {
        Some(DecodeError::CurveMismatch)
    } else if parameters_at(bytes, header.sections@[0].offset) is None {
        Some(DecodeError::SectionDecodeFailure(SectionType::Parameters))
    } else if solvers_at(bytes, header.sections@[2].offset) is None {
        Some(DecodeError::SectionDecodeFailure(SectionType::Solvers))
    } else if modules_at(bytes, header.sections@[3].offset) is None {
        Some(DecodeError::SectionDecodeFailure(SectionType::Modules))
    } else {
        None
    }
}

/// A record read back is the statement it was written for.
pub proof fn lemma_record_round_trip(s: StatementView)
    requires
        s.is_indexed(),
    ensures
        record_statement(statement_record(s)) == Some(s),
{
}

fn statement_from_record(record: StatementRecord) -> (r: Option<Statement>)
    ensures
        match record_statement(statement_record_view(record)) {
            Some(s) => r matches Some(x) && x@ == s,
            None => r is None,
        },
{
    let (kind, inputs, outputs, solver, payload) = record;
    if kind == 0 {
        Some(Statement::Constraint { inputs, outputs, payload })
    } else if kind == 1 {
        if solver > usize::MAX as u64 {
            None
        } else {
            Some(Statement::Directive { inputs, outputs, solver: SolverRef::Index(solver as usize) })
        }
    } else if kind == 2 {
        Some(Statement::Other { payload })
    } else {
        None
    }
}

/// The bytes of `bytes` from `offset` on, where there are any.
fn tail(bytes: &Vec<u8>, offset: u64) -> (r: Option<&[u8]>)
    ensures
        match r {
            Some(t) => tail_at(bytes@, offset) == Some(t@),
            None => tail_at(bytes@, offset) is None,
        },
{
    let len = bytes.len();
    if offset > len as u64 {
        None
    } else {
        Some(slice_subrange(bytes.as_slice(), offset as usize, len))
    }
}

/// The statements of a container, decoded one at a time from the front.
/// It goes forward only: what was read is not read again.
pub struct UnwrappedStreamDeserializer {
    bytes: Vec<u8>,
    pos: usize,
    end: usize,
}

impl UnwrappedStreamDeserializer {
    pub closed spec fn wf(&self) -> bool {
        self.pos <= self.end <= self.bytes@.len()
    }

    /// The bytes not read yet.
    pub closed spec fn unread(&self) -> Seq<u8> {
        self.bytes@.subrange(self.pos as int, self.end as int)
    }

    /// A stream over the section of `bytes` that starts at `offset` and is
    /// `length` long.
    pub fn new(bytes: Vec<u8>, offset: u64, length: u64) -> (s: Self)
        ensures
            s.wf(),
            s.unread() == section_bytes(bytes@, offset, length),
    {
        let len = bytes.len();
        let pos = if offset <= len as u64 {
            offset as usize
        } else {
            len
        };
        let end = if length <= (len - pos) as u64 {
            pos + length as usize
        } else {
            len
        };
        UnwrappedStreamDeserializer { bytes, pos, end }
    }

    /// The next statement, or `None` at the end of the section or at a
    /// record that cannot be read; after that every call gives `None`.
    pub fn next(&mut self) -> (r: Option<Statement>)
        requires
            old(self).wf(),
        ensures
            final(self).wf(),
            match first_statement(old(self).unread()) {
                Some((s, used)) => r matches Some(x) && x@ == s && final(self).unread() == old(
                    self,
                ).unread().subrange(used as int, old(self).unread().len() as int),
                None => r is None && final(self).unread() == Seq::<u8>::empty(),
            },
    {
        if self.pos >= self.end {
            assert(self.unread() =~= Seq::<u8>::empty());
            return None;
        }
        let data = slice_subrange(self.bytes.as_slice(), self.pos, self.end);
        let found = match decode_statement(data) {
            Ok((record, used)) => {
                if used == 0 || used > self.end - self.pos {
                    None
                } else {
                    match statement_from_record(record) {
                        Some(s) => Some((s, used)),
                        None => None,
                    }
                }
            },
            Err(_) => None,
        };
        match found {
            Some((s, used)) => {
                self.pos = self.pos + used;
                assert(self.unread() =~= old(self).unread().subrange(
                    used as int,
                    old(self).unread().len() as int,
                ));
                Some(s)
            },
            None => {
                self.pos = self.end;
                assert(self.unread() =~= Seq::<u8>::empty());
                None
            },
        }
    }
}

fn parameters_from(records: &Vec<(u64, bool)>) -> (r: Vec<Parameter<u64>>)
    ensures
        parameter_records(r@) == records@,
        forall|i: int| 0 <= i < r@.len() ==> (#[trigger] r@[i]).span is None,
{
    let mut r: Vec<Parameter<u64>> = Vec::new();
    let mut i: usize = 0;
    while i < records.len()
        invariant
            i <= records.len(),
            r@.len() == i,
            forall|j: int|
                0 <= j < i ==> (#[trigger] r@[j]) == (Parameter {
                    span: None,
                    id: records@[j].0,
                    private: records@[j].1,
                }),
        decreases records.len() - i,
    {
        r.push(Parameter::new(records[i].0, records[i].1));
        i += 1;
    }
    assert(parameter_records(r@) =~= records@);
    r
}

fn solvers_from(records: &Vec<(String, u64, u64)>) -> (r: Vec<Solver>)
    ensures
        solver_records(solver_views(r@)) == solver_records_view(records@),
{
    let mut r: Vec<Solver> = Vec::new();
    let mut i: usize = 0;
    while i < records.len()
        invariant
            i <= records.len(),
            r@.len() == i,
            forall|j: int|
                0 <= j < i ==> (#[trigger] r@[j]).name@ == records@[j].0@ && r@[j].inputs
                    == records@[j].1 && r@[j].outputs == records@[j].2,
        decreases records.len() - i,
    {
        let t = &records[i];
        r.push(Solver { name: t.0.clone(), inputs: t.1, outputs: t.2 });
        i += 1;
    }
    assert(solver_records(solver_views(r@)) =~= solver_records_view(records@));
    r
}

impl ProgIterator<UnwrappedStreamDeserializer> {
    /// Reads the program that `bytes` hold under `header`. Parameters,
    /// solvers and module map are decoded here, each from its section's
    /// offset; the statements are left to be read from the stream.
    pub fn read(bytes: Vec<u8>, header: &ProgHeader, curve_id: [u8; 4]) -> (r: Result<
        Self,
        DecodeError,
    >)
        ensures
            match r {
                Ok(p) => {
                    &&& read_fault(bytes@, *header, curve_id@) is None
                    &&& Some(parameter_records(p.arguments@)) == parameters_at(
                        bytes@,
                        header.sections@[0].offset,
                    )
                    &&& forall|i: int|
                        0 <= i < p.arguments@.len() ==> (#[trigger] p.arguments@[i]).span is None
                    &&& Some(solver_records(solver_views(p.solvers@))) == solvers_at(
                        bytes@,
                        header.sections@[2].offset,
                    )
                    &&& Some(module_records_view(p.module_map.modules@)) == modules_at(
                        bytes@,
                        header.sections@[3].offset,
                    )
                    &&& p.return_count == header.return_count
                    &&& p.statements.wf()
                    &&& p.statements.unread() == section_bytes(
                        bytes@,
                        header.sections@[1].offset,
                        header.sections@[1].length,
                    )
                },
                Err(e) => read_fault(bytes@, *header, curve_id@) == Some(e),
            },
    {
        let same_curve = header.curve_id[0] == curve_id[0] && header.curve_id[1] == curve_id[1]
            && header.curve_id[2] == curve_id[2] && header.curve_id[3] == curve_id[3];
        proof {
            if same_curve {
                assert(header.curve_id@ =~= curve_id@);
            }
        }
        if !same_curve {
            return Err(DecodeError::CurveMismatch);
        }
        let arguments = match tail(&bytes, header.sections[0].offset) {
            Some(t) => match decode_parameters(t) {
                Ok(records) => parameters_from(&records),
                Err(_) => {
                    return Err(DecodeError::SectionDecodeFailure(SectionType::Parameters));
                },
            },
            None => {
                return Err(DecodeError::SectionDecodeFailure(SectionType::Parameters));
            },
        };
        let solvers = match tail(&bytes, header.sections[2].offset) {
            Some(t) => match decode_solvers(t) {
                Ok(records) => solvers_from(&records),
                Err(_) => {
                    return Err(DecodeError::SectionDecodeFailure(SectionType::Solvers));
                },
            },
            None => {
                return Err(DecodeError::SectionDecodeFailure(SectionType::Solvers));
            },
        };
        let modules = match tail(&bytes, header.sections[3].offset) {
            Some(t) => match decode_modules(t) {
                Ok(records) => records,
                Err(_) => {
                    return Err(DecodeError::SectionDecodeFailure(SectionType::Modules));
                },
            },
            None => {
                return Err(DecodeError::SectionDecodeFailure(SectionType::Modules));
            },
        };
        let statements = UnwrappedStreamDeserializer::new(
            bytes,
            header.sections[1].offset,
            header.sections[1].length,
        );
        Ok(
            ProgIterator {
                arguments,
                statements,
                return_count: header.return_count as usize,
                module_map: ModuleMap { modules },
                solvers,
            },
        )
    }

    /// Reads the stream to its end and gives the program with its
    /// statements in memory.
    pub fn collect(self) -> (p: ProgIterator<Vec<Statement>>)
        requires
            self.statements.wf(),
        ensures
            statement_views(p.statements@) == decode_all(self.statements.unread()),
            p.arguments == self.arguments,
            p.return_count == self.return_count,
            p.module_map == self.module_map,
            p.solvers == self.solvers,
    {
        let ghost all = self.statements.unread();
        let ProgIterator { arguments, statements, return_count, module_map, solvers } = self;
        let mut stream = statements;
        let mut out: Vec<Statement> = Vec::new();
        let mut done = false;
        assert(statement_views(out@) + decode_all(stream.unread()) =~= decode_all(all));
        while !done
            invariant
                stream.wf(),
                statement_views(out@) + decode_all(stream.unread()) == decode_all(all),
                done ==> stream.unread() == Seq::<u8>::empty(),
            decreases stream.unread().len() + if done { 0nat } else { 1nat },
        {
            let ghost before = stream.unread();
            let ghost seen = statement_views(out@);
            match stream.next() {
                Some(s) => {
                    out.push(s);
                    assert(statement_views(out@) =~= seen + seq![s@]);
                    assert(seen + seq![s@] + decode_all(stream.unread()) =~= seen + (seq![s@]
                        + decode_all(stream.unread())));
                },
                None => {
                    done = true;
                },
            }
        }
        assert(decode_all(Seq::<u8>::empty()) =~= Seq::<StatementView>::empty());
        assert(statement_views(out@) =~= decode_all(all));
        ProgIterator { arguments, statements: out, return_count, module_map, solvers }
    }
}

/// A container written at the front of a sink can be read back: magic,
/// version and header are accepted, the header carries the curve, the two
/// counts and the table that were written, and each table entry leads to
/// its payload. The constraints section holds the statement records and
/// nothing else.
pub proof fn lemma_container_frames(
    curve_id: Seq<u8>,
    constraint_count: u32,
    return_count: u32,
    p: Seq<u8>,
    c: Seq<u8>,
    s: Seq<u8>,
    m: Seq<u8>,
)
    requires
        curve_id.len() == 4,
        100 + p.len() + c.len() + s.len() + m.len() <= u64::MAX,
    ensures
        ({
            let bytes = container(curve_id, constraint_count, return_count, 0, p, c, s, m);
            let table = section_table(0, p, c, s, m);
            &&& header_fault(bytes) is None
            &&& bytes.subrange(8, 12) == curve_id
            &&& spec_u32_from_le_bytes(bytes.subrange(12, 16)) == constraint_count
            &&& spec_u32_from_le_bytes(bytes.subrange(16, 20)) == return_count
            &&& section_at(bytes, 20) == table[0]
            &&& section_at(bytes, 40) == table[1]
            &&& section_at(bytes, 60) == table[2]
            &&& section_at(bytes, 80) == table[3]
            &&& tail_at(bytes, table[0].offset) == Some(p + c + s + m)
            &&& section_bytes(bytes, table[1].offset, table[1].length) == c
            &&& tail_at(bytes, table[2].offset) == Some(s + m)
            &&& tail_at(bytes, table[3].offset) == Some(m)
        }),
{
    let bytes = container(curve_id, constraint_count, return_count, 0, p, c, s, m);
    let table = section_table(0, p, c, s, m);
    let rest = p + c + s + m;
    lemma_header_fields_round_trip(curve_id, constraint_count, return_count, table, rest);
    let e = crate::format::header_encoding(curve_id, constraint_count, return_count, table);
    assert(bytes =~= crate::format::magic_bytes() + crate::format::version_bytes() + e + rest);
    assert(bytes.len() == 100 + p.len() + c.len() + s.len() + m.len());
    assert(bytes.subrange(100, bytes.len() as int) =~= p + c + s + m);
    let at_c: int = 100int + p.len();
    let at_s: int = at_c + c.len();
    let at_m: int = at_s + s.len();
    assert(bytes.subrange(at_c, at_s) =~= c);
    assert(bytes.subrange(at_s, bytes.len() as int) =~= s + m);
    assert(bytes.subrange(at_m, bytes.len() as int) =~= m);
}

} // verus!
