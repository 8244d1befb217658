//! What is read back from a container that was written, stated under the
//! one thing this library takes from its codec on trust of the caller:
//! that a value decodes from the front of its own encoding.

use crate::cbor::{
    cbor_modules, cbor_modules_at, cbor_parameters, cbor_parameters_at, cbor_solvers,
    cbor_solvers_at, cbor_statement, cbor_statement_at, module_records_view,
    StatementRecordView,
};
use crate::deserialize::{
    decode_all, first_statement, lemma_container_frames, lemma_record_round_trip, modules_at,
    parameters_at, section_bytes, solvers_at,
};
use crate::format::header_fault;
use crate::serialize::{
    constraint_count, constraints_payload, parameter_records, section_table, solver_records,
    statement_record, ProgIterator,
};
use crate::solver_indexer::spec_index_all;
use crate::statement::{statement_views, SolverView, Statement, StatementView};
use vstd::prelude::*;

verus! {

/// The codec reads a value back from the front of its encoding, whatever
/// follows; a statement record's encoding is not empty, and the decoder
/// reports its length as the number of bytes read.
pub open spec fn codec_round_trips() -> bool {
    &&& forall|x: Seq<(u64, bool)>, b: Seq<u8>, rest: Seq<u8>|
        #![trigger cbor_parameters(x), cbor_parameters_at(b + rest)]
        cbor_parameters(x) == Some(b) ==> cbor_parameters_at(b + rest) == Some(x)
    &&& forall|x: Seq<(Seq<char>, u64, u64)>, b: Seq<u8>, rest: Seq<u8>|
        #![trigger cbor_solvers(x), cbor_solvers_at(b + rest)]
        cbor_solvers(x) == Some(b) ==> cbor_solvers_at(b + rest) == Some(x)
    &&& forall|x: Seq<(u64, Seq<char>)>, b: Seq<u8>, rest: Seq<u8>|
        #![trigger cbor_modules(x), cbor_modules_at(b + rest)]
        cbor_modules(x) == Some(b) ==> cbor_modules_at(b + rest) == Some(x)
    &&& forall|x: StatementRecordView, b: Seq<u8>, rest: Seq<u8>|
        #![trigger cbor_statement(x), cbor_statement_at(b + rest)]
        cbor_statement(x) == Some(b) ==> 0 < b.len() <= usize::MAX && cbor_statement_at(b + rest)
            == Some((x, b.len() as usize))
}

/// After indexing no statement embeds a solver.
pub proof fn lemma_index_all_indexed(table: Seq<SolverView>, stmts: Seq<StatementView>)
    ensures
        spec_index_all(table, stmts).1.len() == stmts.len(),
        forall|i: int|
            0 <= i < stmts.len() ==> (#[trigger] spec_index_all(table, stmts).1[i]).is_indexed(),
    decreases stmts.len(),
{
    if stmts.len() > 0 {
        lemma_index_all_indexed(table, stmts.drop_last());
    }
}

/// Statement records written one after the other are read back in order,
/// and reading goes on with what follows them.
pub proof fn lemma_decode_payload(stmts: Seq<StatementView>, rest: Seq<u8>)
    requires
        codec_round_trips(),
        forall|i: int| 0 <= i < stmts.len() ==> (#[trigger] stmts[i]).is_indexed(),
        constraints_payload(stmts) is Some,
    ensures
        decode_all(constraints_payload(stmts).unwrap() + rest) == stmts + decode_all(rest),
    decreases stmts.len(),
{
    if stmts.len() == 0 {
        assert(constraints_payload(stmts).unwrap() + rest =~= rest);
        assert(stmts + decode_all(rest) =~= decode_all(rest));
    } else {
        let front = stmts.drop_last();
        let last = stmts.last();
        let pf = constraints_payload(front).unwrap();
        let lb = cbor_statement(statement_record(last)).unwrap();
        let data = lb + rest;
        assert(cbor_statement_at(lb + rest) == Some((statement_record(last), lb.len() as usize)));
        lemma_record_round_trip(last);
        assert(first_statement(data) == Some((last, lb.len() as usize)));
        assert(data.subrange(lb.len() as int, data.len() as int) =~= rest);
        assert(decode_all(data) == seq![last] + decode_all(rest));
        assert forall|i: int| 0 <= i < front.len() implies (#[trigger] front[i]).is_indexed() by {
            assert(front[i] == stmts[i]);
        }
        lemma_decode_payload(front, data);
        assert(constraints_payload(stmts).unwrap() + rest =~= pf + data);
        assert(front + (seq![last] + decode_all(rest)) =~= stmts + decode_all(rest));
    }
}

/// Under `codec_round_trips`, a program written to an empty sink is read
/// back: the header is accepted, the parameters come back without their
/// spans, the statements come back with each embedded solver replaced by
/// its index, and the solver table and the module map come back as written.
pub proof fn lemma_round_trip_given_codec(p: ProgIterator<Vec<Statement>>, curve_id: Seq<u8>)
    requires
        codec_round_trips(),
        curve_id.len() == 4,
        p.first_failure() is None,
        p.image(curve_id, 0).len() <= u64::MAX,
    ensures
        ({
            let bytes = p.image(curve_id, 0);
            let table = section_table(
                0,
                p.parameters_payload().unwrap(),
                p.statements_payload().unwrap(),
                p.solvers_payload().unwrap(),
                p.modules_payload().unwrap(),
            );
            &&& header_fault(bytes) is None
            &&& parameters_at(bytes, table[0].offset) == Some(parameter_records(p.arguments@))
            &&& decode_all(section_bytes(bytes, table[1].offset, table[1].length))
                == p.indexed().1
            &&& solvers_at(bytes, table[2].offset) == Some(solver_records(p.indexed().0))
            &&& modules_at(bytes, table[3].offset) == Some(
                module_records_view(p.module_map.modules@),
            )
        }),
{
    let pb = p.parameters_payload().unwrap();
    let cb = p.statements_payload().unwrap();
    let sb = p.solvers_payload().unwrap();
    let mb = p.modules_payload().unwrap();
    let cc = constraint_count(statement_views(p.statements@)) as u32;
    let rc = p.return_count as u32;
    let bytes = p.image(curve_id, 0);
    crate::format::lemma_header_fields_round_trip(
        curve_id,
        cc,
        rc,
        section_table(0, pb, cb, sb, mb),
        pb + cb + sb + mb,
    );
    assert(bytes =~= crate::format::magic_bytes() + crate::format::version_bytes()
        + crate::format::header_encoding(curve_id, cc, rc, section_table(0, pb, cb, sb, mb)) + (pb + cb + sb + mb));
    assert(bytes.len() == 100 + pb.len() + cb.len() + sb.len() + mb.len());
    lemma_container_frames(curve_id, cc, rc, pb, cb, sb, mb);
    assert(pb + cb + sb + mb =~= pb + (cb + sb + mb));
    assert(cbor_parameters_at(pb + (cb + sb + mb)) == Some(parameter_records(p.arguments@)));
    assert(cbor_solvers_at(sb + mb) == Some(solver_records(p.indexed().0)));
    assert(mb + Seq::<u8>::empty() =~= mb);
    assert(cbor_modules_at(mb + Seq::<u8>::empty()) == Some(
        module_records_view(p.module_map.modules@),
    ));
    lemma_index_all_indexed(Seq::empty(), statement_views(p.statements@));
    lemma_decode_payload(p.indexed().1, Seq::empty());
    assert(cb + Seq::<u8>::empty() =~= cb);
    assert(first_statement(Seq::<u8>::empty()) is None);
    assert(decode_all(Seq::<u8>::empty()) =~= Seq::<StatementView>::empty());
    assert(p.indexed().1 + Seq::<StatementView>::empty() =~= p.indexed().1);
}

} // verus!
