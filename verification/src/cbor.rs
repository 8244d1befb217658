//! Section payloads and statement records as CBOR, written and read by
//! `serde_cbor` on plain values.

use vstd::prelude::*;

verus! {

/// Trusted: `serde_cbor::Error`, the error of the encoder and the decoder.
/// It is carried, never looked into.
#[verifier::external_type_specification]
#[verifier::external_body]
pub struct ExCborError(serde_cbor::Error);

/// A statement as the plain values that are encoded: kind, variables read,
/// variables defined, solver index, payload.
pub type StatementRecord = (u8, Vec<u64>, Vec<u64>, u64, Vec<u8>);

pub type StatementRecordView = (u8, Seq<u64>, Seq<u64>, u64, Seq<u8>);

pub open spec fn statement_record_view(r: StatementRecord) -> StatementRecordView {
    (r.0, r.1@, r.2@, r.3, r.4@)
}

pub open spec fn solver_records_view(items: Seq<(String, u64, u64)>) -> Seq<
    (Seq<char>, u64, u64),
> {
    items.map_values(|t: (String, u64, u64)| (t.0@, t.1, t.2))
}

pub open spec fn module_records_view(items: Seq<(u64, String)>) -> Seq<(u64, Seq<char>)> {
    items.map_values(|t: (u64, String)| (t.0, t.1@))
}

/// The CBOR encoding of a parameter list, each parameter as its variable
/// and its privacy flag; `None` where the encoder fails.
pub uninterp spec fn cbor_parameters(items: Seq<(u64, bool)>) -> Option<Seq<u8>>;

/// The CBOR encoding of one statement record; `None` where the encoder fails.
pub uninterp spec fn cbor_statement(record: StatementRecordView) -> Option<Seq<u8>>;

/// The CBOR encoding of a solver list, each solver as name, inputs and
/// outputs; `None` where the encoder fails.
pub uninterp spec fn cbor_solvers(items: Seq<(Seq<char>, u64, u64)>) -> Option<Seq<u8>>;

/// The CBOR encoding of a module map, each entry as hash and module name;
/// `None` where the encoder fails.
pub uninterp spec fn cbor_modules(items: Seq<(u64, Seq<char>)>) -> Option<Seq<u8>>;

/// The parameter list that the first CBOR value of `bytes` holds; `None`
/// where the decoder fails.
pub uninterp spec fn cbor_parameters_at(bytes: Seq<u8>) -> Option<Seq<(u64, bool)>>;

/// The statement record that the first CBOR value of `bytes` holds, and the
/// number of bytes read for it; `None` where the decoder fails.
pub uninterp spec fn cbor_statement_at(bytes: Seq<u8>) -> Option<(StatementRecordView, usize)>;

/// The solver list that the first CBOR value of `bytes` holds; `None` where
/// the decoder fails.
pub uninterp spec fn cbor_solvers_at(bytes: Seq<u8>) -> Option<Seq<(Seq<char>, u64, u64)>>;

/// The module map that the first CBOR value of `bytes` holds; `None` where
/// the decoder fails.
pub uninterp spec fn cbor_modules_at(bytes: Seq<u8>) -> Option<Seq<(u64, Seq<char>)>>;

/// Trusted: `serde_cbor::to_vec` on a list of pairs. Its result depends on
/// the list alone; nothing is claimed of the bytes themselves.
#[verifier::external_body]
pub(crate) fn encode_parameters(items: &Vec<(u64, bool)>) -> (r: Result<
    Vec<u8>,
    serde_cbor::Error,
>)
    ensures
        cbor_parameters(items@) == (match r {
            Ok(b) => Some(b@),
            Err(_) => None::<Seq<u8>>,
        }),
{
    serde_cbor::to_vec(items)
}

/// Trusted: `serde_cbor::to_vec` on the five values of a statement record.
/// Its result depends on the record alone; nothing is claimed of the bytes
/// themselves.
#[verifier::external_body]
pub(crate) fn encode_statement(
    kind: u8,
    inputs: &Vec<u64>,
    outputs: &Vec<u64>,
    solver: u64,
    payload: &Vec<u8>,
) -> (r: Result<Vec<u8>, serde_cbor::Error>)
    ensures
        cbor_statement((kind, inputs@, outputs@, solver, payload@)) == (match r {
            Ok(b) => Some(b@),
            Err(_) => None::<Seq<u8>>,
        }),
{
    serde_cbor::to_vec(&(kind, inputs, outputs, solver, payload))
}

/// Trusted: `serde_cbor::to_vec` on a list of triples. Its result depends
/// on the list alone; nothing is claimed of the bytes themselves.
#[verifier::external_body]
pub(crate) fn encode_solvers(items: &Vec<(String, u64, u64)>) -> (r: Result<
    Vec<u8>,
    serde_cbor::Error,
>)
    ensures
        cbor_solvers(solver_records_view(items@)) == (match r {
            Ok(b) => Some(b@),
            Err(_) => None::<Seq<u8>>,
        }),
{
    serde_cbor::to_vec(items)
}

/// Trusted: `serde_cbor::to_vec` on a list of pairs of hash and name. Its
/// result depends on the list alone; nothing is claimed of the bytes
/// themselves.
#[verifier::external_body]
pub(crate) fn encode_modules(items: &Vec<(u64, String)>) -> (r: Result<
    Vec<u8>,
    serde_cbor::Error,
>)
    ensures
        cbor_modules(module_records_view(items@)) == (match r {
            Ok(b) => Some(b@),
            Err(_) => None::<Seq<u8>>,
        }),
{
    serde_cbor::to_vec(items)
}

/// Trusted: a `serde_cbor::Deserializer` over `bytes` reads one value from
/// the front as a list of pairs and leaves what follows unread. The outcome
/// depends on the bytes alone.
#[verifier::external_body]
pub(crate) fn decode_parameters(bytes: &[u8]) -> (r: Result<Vec<(u64, bool)>, serde_cbor::Error>)
    ensures
        cbor_parameters_at(bytes@) == (match r {
            Ok(v) => Some(v@),
            Err(_) => None::<Seq<(u64, bool)>>,
        }),
{
    let mut de = serde_cbor::Deserializer::from_slice(bytes);
    serde::Deserialize::deserialize(&mut de)
}

/// Trusted: a `serde_cbor::Deserializer` over `bytes` reads one value from
/// the front as a statement record; `byte_offset` then tells how far it
/// read. The outcome depends on the bytes alone. Nothing is claimed of the
/// offset's size.
#[verifier::external_body]
pub(crate) fn decode_statement(bytes: &[u8]) -> (r: Result<
    (StatementRecord, usize),
    serde_cbor::Error,
>)
    ensures
        cbor_statement_at(bytes@) == (match r {
            Ok(v) => Some((statement_record_view(v.0), v.1)),
            Err(_) => None::<(StatementRecordView, usize)>,
        }),
{
    let mut de = serde_cbor::Deserializer::from_slice(bytes);
    let record: StatementRecord = serde::Deserialize::deserialize(&mut de)?;
    Ok((record, de.byte_offset()))
}

/// Trusted: a `serde_cbor::Deserializer` over `bytes` reads one value from
/// the front as a list of triples and leaves what follows unread. The
/// outcome depends on the bytes alone.
#[verifier::external_body]
pub(crate) fn decode_solvers(bytes: &[u8]) -> (r: Result<
    Vec<(String, u64, u64)>,
    serde_cbor::Error,
>)
    ensures
        cbor_solvers_at(bytes@) == (match r {
            Ok(v) => Some(solver_records_view(v@)),
            Err(_) => None::<Seq<(Seq<char>, u64, u64)>>,
        }),
{
    let mut de = serde_cbor::Deserializer::from_slice(bytes);
    serde::Deserialize::deserialize(&mut de)
}

/// Trusted: a `serde_cbor::Deserializer` over `bytes` reads one value from
/// the front as a list of pairs of hash and name and leaves what follows
/// unread. The outcome depends on the bytes alone.
#[verifier::external_body]
pub(crate) fn decode_modules(bytes: &[u8]) -> (r: Result<Vec<(u64, String)>, serde_cbor::Error>)
    ensures
        cbor_modules_at(bytes@) == (match r {
            Ok(v) => Some(module_records_view(v@)),
            Err(_) => None::<Seq<(u64, Seq<char>)>>,
        }),
{
    let mut de = serde_cbor::Deserializer::from_slice(bytes);
    serde::Deserialize::deserialize(&mut de)
}

} // verus!
