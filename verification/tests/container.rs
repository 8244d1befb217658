use std::collections::hash_map::DefaultHasher;
use std::hash::{Hash, Hasher};

use zokrates_ast::check::UnconstrainedVariableDetector;
use zokrates_ast::deserialize::{DecodeError, UnwrappedStreamDeserializer};
use zokrates_ast::format::{
    ProgHeader, ReadError, Section, SectionType, FILE_VERSION, HEADER_LEN, PREAMBLE_LEN,
    ZOKRATES_MAGIC,
};
use zokrates_ast::parameter::{Parameter, Span};
use zokrates_ast::serialize::{ModuleMap, Prog, ProgIterator, SerializeError};
use zokrates_ast::solver_indexer::SolverIndexer;
use zokrates_ast::statement::{Solver, SolverRef, Statement};

const BN128: [u8; 4] = [0x10, 0x20, 0x30, 0x40];
const BLS12_381: [u8; 4] = [0x51, 0x62, 0x73, 0x84];

fn round_trip(p: Prog, curve: [u8; 4]) -> Prog {
    let mut buffer: Vec<u8> = Vec::new();
    p.serialize(curve, &mut buffer).unwrap();
    let header = ProgHeader::read(&buffer).unwrap();
    let deserialized = ProgIterator::read(buffer, &header, curve).unwrap();
    deserialized.collect()
}

fn bits() -> Solver {
    Solver::new(String::from("bits"), 1, 254)
}

fn directive(input: u64, output: u64, solver: Solver) -> Statement {
    Statement::Directive {
        inputs: vec![input],
        outputs: vec![output],
        solver: SolverRef::Embedded(solver),
    }
}

fn constraint(inputs: Vec<u64>, outputs: Vec<u64>) -> Statement {
    Statement::Constraint { inputs, outputs, payload: vec![0xaa, 0xbb] }
}

fn sample() -> Prog {
    ProgIterator::new(
        vec![Parameter::public(1), Parameter::private(2)],
        vec![
            directive(1, 3, bits()),
            constraint(vec![1, 2, 3], vec![]),
            Statement::Other { payload: vec![7, 7, 7] },
        ],
        1,
        ModuleMap::new(vec![(99, String::from("main.zok"))]),
        vec![],
    )
}

#[test]
fn ser_deser_v2() {
    let p: Prog = Prog::default();
    assert_eq!(p, round_trip(Prog::default(), BN128));

    let p: Prog = Prog::default();
    assert_eq!(p, round_trip(Prog::default(), BLS12_381));
}

#[test]
fn empty_program_layout() {
    let mut buffer: Vec<u8> = Vec::new();
    let n = Prog::default().serialize(BN128, &mut buffer).unwrap();
    assert_eq!(n, 0);
    // Each of the three lists is the one byte of an empty array.
    assert_eq!(buffer.len(), PREAMBLE_LEN + HEADER_LEN + 3);
    assert_eq!(&buffer[0..4], &[0x5a, 0x4f, 0x4b, 0x00]);
    assert_eq!(&buffer[4..8], &[3, 0, 0, 0]);
    assert_eq!(&buffer[8..12], &BN128);
    assert_eq!(&buffer[12..20], &[0u8; 8]);
    let mut table: Vec<u8> = Vec::new();
    for (tag, offset, length) in [(1u8, 100u8, 1u8), (2, 101, 0), (3, 101, 1), (4, 102, 1)] {
        table.extend_from_slice(&[tag, 0, 0, 0]);
        table.extend_from_slice(&[offset, 0, 0, 0, 0, 0, 0, 0]);
        table.extend_from_slice(&[length, 0, 0, 0, 0, 0, 0, 0]);
    }
    assert_eq!(&buffer[20..100], &table[..]);
    assert_eq!(&buffer[100..], &[0x80, 0x80, 0x80]);
}

#[test]
fn header_bytes_are_little_endian() {
    let mut sections = [
        Section::new(SectionType::Parameters),
        Section::new(SectionType::Constraints),
        Section::new(SectionType::Solvers),
        Section::new(SectionType::Modules),
    ];
    sections[0].set_offset(0x0102030405060708);
    sections[0].set_length(0x1122334455667788);
    let header = ProgHeader {
        curve_id: [9, 8, 7, 6],
        constraint_count: 0x0a0b0c0d,
        return_count: 2,
        sections,
    };
    let mut w: Vec<u8> = vec![0xff];
    header.write(&mut w);
    assert_eq!(w.len(), 1 + HEADER_LEN);
    assert_eq!(w[0], 0xff);
    assert_eq!(&w[1..5], &[9, 8, 7, 6]);
    assert_eq!(&w[5..9], &[0x0d, 0x0c, 0x0b, 0x0a]);
    assert_eq!(&w[9..13], &[2, 0, 0, 0]);
    assert_eq!(&w[13..17], &[1, 0, 0, 0]);
    assert_eq!(&w[17..25], &[8, 7, 6, 5, 4, 3, 2, 1]);
    assert_eq!(&w[25..33], &[0x88, 0x77, 0x66, 0x55, 0x44, 0x33, 0x22, 0x11]);
    assert_eq!(&w[33..37], &[2, 0, 0, 0]);
}

#[test]
fn header_round_trip() {
    let mut sections = [
        Section::new(SectionType::Parameters),
        Section::new(SectionType::Constraints),
        Section::new(SectionType::Solvers),
        Section::new(SectionType::Modules),
    ];
    sections[1].set_offset(1 << 40);
    sections[3].set_length(u64::MAX);
    let header = ProgHeader {
        curve_id: BLS12_381,
        constraint_count: u32::MAX,
        return_count: 17,
        sections,
    };
    let mut w: Vec<u8> = Vec::new();
    w.extend_from_slice(&ZOKRATES_MAGIC);
    w.extend_from_slice(&FILE_VERSION);
    header.write(&mut w);
    w.push(0xee);
    let back = ProgHeader::read(&w).unwrap();
    assert_eq!(back.curve_id, BLS12_381);
    assert_eq!(back.constraint_count, u32::MAX);
    assert_eq!(back.return_count, 17);
    assert_eq!(back.sections[0].ty, SectionType::Parameters);
    assert_eq!(back.sections[1].ty, SectionType::Constraints);
    assert_eq!(back.sections[1].offset, 1 << 40);
    assert_eq!(back.sections[2].ty, SectionType::Solvers);
    assert_eq!(back.sections[3].ty, SectionType::Modules);
    assert_eq!(back.sections[3].length, u64::MAX);
}

#[test]
fn magic_and_version_are_guarded() {
    let mut good: Vec<u8> = Vec::new();
    sample().serialize(BN128, &mut good).unwrap();
    assert!(ProgHeader::read(&good).is_ok());
    for i in 0..8 {
        let mut bad = good.clone();
        bad[i] ^= 0x01;
        let e = ProgHeader::read(&bad).unwrap_err();
        assert!(e.is_invalid_format());
        assert_eq!(e, if i < 4 { ReadError::InvalidMagic } else { ReadError::InvalidVersion });
        bad[i] ^= 0x01;
        assert!(ProgHeader::read(&bad).is_ok());
    }
}

#[test]
fn short_header_is_rejected() {
    let mut good: Vec<u8> = Vec::new();
    Prog::default().serialize(BN128, &mut good).unwrap();
    assert_eq!(ProgHeader::read(&good[..0]).unwrap_err(), ReadError::UnexpectedEof);
    assert_eq!(ProgHeader::read(&good[..3]).unwrap_err(), ReadError::UnexpectedEof);
    assert_eq!(ProgHeader::read(&good[..7]).unwrap_err(), ReadError::UnexpectedEof);
    assert_eq!(ProgHeader::read(&good[..99]).unwrap_err(), ReadError::UnexpectedEof);
    assert!(!ReadError::UnexpectedEof.is_invalid_format());
    assert!(ProgHeader::read(&good[..100]).is_ok());
    // A wrong magic is reported before a missing version.
    assert_eq!(ProgHeader::read(&[0x5a, 0x4f, 0x4b, 1]).unwrap_err(), ReadError::InvalidMagic);
}

#[test]
fn unknown_section_tag_is_rejected() {
    let mut bytes: Vec<u8> = Vec::new();
    Prog::default().serialize(BN128, &mut bytes).unwrap();
    bytes[60] = 5;
    assert_eq!(ProgHeader::read(&bytes).unwrap_err(), ReadError::InvalidSectionType);
    bytes[60] = 0;
    assert_eq!(ProgHeader::read(&bytes).unwrap_err(), ReadError::InvalidSectionType);
    assert_eq!(SectionType::try_from(4), Ok(SectionType::Modules));
    assert_eq!(SectionType::try_from(1), Ok(SectionType::Parameters));
    assert_eq!(SectionType::try_from(0), Err(String::from("invalid section type")));
    assert_eq!(SectionType::Solvers.tag(), 3);
}

#[test]
fn curve_is_guarded() {
    let mut buffer: Vec<u8> = Vec::new();
    Prog::default().serialize(BN128, &mut buffer).unwrap();
    let header = ProgHeader::read(&buffer).unwrap();
    assert_eq!(header.curve_id, BN128);
    match ProgIterator::read(buffer, &header, BLS12_381) {
        Err(e) => assert_eq!(e, DecodeError::CurveMismatch),
        Ok(_) => panic!("a container of another curve was accepted"),
    }
}

#[test]
fn broken_section_is_rejected() {
    let mut buffer: Vec<u8> = Vec::new();
    sample().serialize(BN128, &mut buffer).unwrap();
    let mut header = ProgHeader::read(&buffer).unwrap();
    header.sections[0].set_offset(buffer.len() as u64 + 1);
    match ProgIterator::read(buffer.clone(), &header, BN128) {
        Err(e) => assert_eq!(e, DecodeError::SectionDecodeFailure(SectionType::Parameters)),
        Ok(_) => panic!("parameters were read from beyond the end"),
    }
    let mut header = ProgHeader::read(&buffer).unwrap();
    header.sections[2].set_offset(0);
    match ProgIterator::read(buffer.clone(), &header, BN128) {
        Err(e) => assert_eq!(e, DecodeError::SectionDecodeFailure(SectionType::Solvers)),
        Ok(_) => panic!("solvers were read from the magic"),
    }
    let mut header = ProgHeader::read(&buffer).unwrap();
    header.sections[3].set_offset(buffer.len() as u64);
    match ProgIterator::read(buffer, &header, BN128) {
        Err(e) => assert_eq!(e, DecodeError::SectionDecodeFailure(SectionType::Modules)),
        Ok(_) => panic!("a module map was read from nothing"),
    }
}

#[test]
fn round_trip_rewrites_solvers_to_indices() {
    let back = round_trip(sample(), BN128);
    assert_eq!(back.arguments, vec![Parameter::public(1), Parameter::private(2)]);
    assert!(!back.arguments[0].private);
    assert!(back.arguments[1].private);
    assert_eq!(back.return_count, 1);
    assert_eq!(back.module_map, ModuleMap::new(vec![(99, String::from("main.zok"))]));
    assert_eq!(back.solvers, vec![bits()]);
    assert_eq!(
        back.statements,
        vec![
            Statement::Directive {
                inputs: vec![1],
                outputs: vec![3],
                solver: SolverRef::Index(0),
            },
            constraint(vec![1, 2, 3], vec![]),
            Statement::Other { payload: vec![7, 7, 7] },
        ]
    );
}

#[test]
fn same_solver_is_interned_once() {
    let other = Solver::new(String::from("xor"), 2, 1);
    let p: Prog = ProgIterator::new(
        vec![],
        vec![
            directive(1, 10, bits()),
            directive(2, 11, bits()),
            directive(3, 12, other.clone()),
            directive(4, 13, bits()),
            constraint(vec![10, 11, 12, 13], vec![]),
        ],
        0,
        ModuleMap::default(),
        vec![],
    );
    let back = round_trip(p, BN128);
    assert_eq!(back.solvers, vec![bits(), other]);
    let indices: Vec<usize> = back
        .statements
        .iter()
        .filter_map(|s| match s {
            Statement::Directive { solver: SolverRef::Index(i), .. } => Some(*i),
            _ => None,
        })
        .collect();
    assert_eq!(indices, vec![0, 0, 1, 0]);
}

#[test]
fn indexer_keeps_first_seen_order() {
    let mut indexer = SolverIndexer::new();
    let a = Solver::new(String::from("b"), 1, 1);
    let b = Solver::new(String::from("a"), 1, 1);
    let s = indexer.fold_statement(directive(1, 2, a.clone()));
    assert_eq!(
        s,
        Statement::Directive { inputs: vec![1], outputs: vec![2], solver: SolverRef::Index(0) }
    );
    let s = indexer.fold_statement(directive(1, 2, b.clone()));
    assert_eq!(
        s,
        Statement::Directive { inputs: vec![1], outputs: vec![2], solver: SolverRef::Index(1) }
    );
    let s = indexer.fold_statement(constraint(vec![1], vec![2]));
    assert_eq!(s, constraint(vec![1], vec![2]));
    let s = indexer.fold_statement(Statement::Directive {
        inputs: vec![],
        outputs: vec![],
        solver: SolverRef::Index(5),
    });
    assert_eq!(
        s,
        Statement::Directive { inputs: vec![], outputs: vec![], solver: SolverRef::Index(5) }
    );
    assert_eq!(indexer.solvers, vec![a, b]);
    // Solvers that differ in arity alone are different solvers.
    assert_ne!(Solver::new(String::from("a"), 1, 1), Solver::new(String::from("a"), 1, 2));
}

#[test]
fn unconstrained_variable_fails_after_the_container_is_written() {
    let p: Prog = ProgIterator::new(
        vec![],
        vec![constraint(vec![1], vec![5])],
        0,
        ModuleMap::default(),
        vec![],
    );
    let mut buffer: Vec<u8> = Vec::new();
    assert_eq!(p.serialize(BN128, &mut buffer), Err(SerializeError::UnconstrainedVariable(1)));
    let header = ProgHeader::read(&buffer).unwrap();
    assert_eq!(header.constraint_count, 1);

    let p: Prog = ProgIterator::new(
        vec![],
        vec![
            directive(1, 5, bits()),
            directive(1, 6, bits()),
            directive(1, 7, bits()),
            constraint(vec![6], vec![]),
        ],
        0,
        ModuleMap::default(),
        vec![],
    );
    let mut buffer: Vec<u8> = Vec::new();
    assert_eq!(p.serialize(BN128, &mut buffer), Err(SerializeError::UnconstrainedVariable(2)));
}

#[test]
fn consumed_variables_pass() {
    let p: Prog = ProgIterator::new(
        vec![],
        vec![
            constraint(vec![1], vec![5]),
            directive(5, 6, bits()),
            constraint(vec![5, 6], vec![]),
        ],
        0,
        ModuleMap::default(),
        vec![],
    );
    let mut buffer: Vec<u8> = Vec::new();
    assert_eq!(p.serialize(BN128, &mut buffer), Ok(2));
}

#[test]
fn detector_counts_what_no_constraint_reads() {
    let mut d = UnconstrainedVariableDetector::new();
    let out = d.fold_statement(directive(1, 2, bits()));
    assert_eq!(out, vec![directive(1, 2, bits())]);
    d.fold_statement(directive(1, 3, bits()));
    d.fold_statement(directive(1, 3, bits()));
    d.fold_statement(Statement::Other { payload: vec![] });
    d.fold_statement(constraint(vec![2], vec![]));
    assert_eq!(d.finalize(), Err(1));

    // A variable read before it is defined counts as read.
    let mut d = UnconstrainedVariableDetector::new();
    d.fold_statement(constraint(vec![4], vec![]));
    d.fold_statement(directive(1, 4, bits()));
    assert_eq!(d.finalize(), Ok(()));

    assert_eq!(UnconstrainedVariableDetector::new().finalize(), Ok(()));
}

#[test]
fn constraint_count_leaves_directives_out() {
    let p: Prog = ProgIterator::new(
        vec![Parameter::private(1)],
        vec![
            directive(1, 2, bits()),
            constraint(vec![2], vec![]),
            directive(1, 3, bits()),
            constraint(vec![3], vec![]),
            constraint(vec![1], vec![]),
        ],
        4,
        ModuleMap::default(),
        vec![],
    );
    let mut buffer: Vec<u8> = vec![1, 2, 3];
    assert_eq!(p.serialize(BLS12_381, &mut buffer), Ok(3));
    assert_eq!(&buffer[..3], &[1, 2, 3]);
    let header = ProgHeader::read(&buffer[3..]).unwrap();
    assert_eq!(header.constraint_count, 3);
    assert_eq!(header.return_count, 4);
    assert_eq!(header.curve_id, BLS12_381);
    // Offsets count from the start of the sink.
    assert_eq!(header.sections[0].offset, (3 + PREAMBLE_LEN + HEADER_LEN) as u64);
    assert_eq!(
        header.sections[3].offset + header.sections[3].length,
        buffer.len() as u64
    );
    for i in 0..3 {
        assert_eq!(
            header.sections[i].offset + header.sections[i].length,
            header.sections[i + 1].offset
        );
    }
}

#[test]
fn stream_ends_at_a_broken_record() {
    let mut buffer: Vec<u8> = Vec::new();
    sample().serialize(BN128, &mut buffer).unwrap();
    let header = ProgHeader::read(&buffer).unwrap();
    let at = header.sections[1].offset;
    let length = header.sections[1].length;

    let mut stream = UnwrappedStreamDeserializer::new(buffer.clone(), at, length);
    assert!(stream.next().is_some());
    assert!(stream.next().is_some());
    assert!(stream.next().is_some());
    assert!(stream.next().is_none());
    assert!(stream.next().is_none());

    // Cut inside the second record: the first is read, then the stream ends.
    let mut stream = UnwrappedStreamDeserializer::new(buffer.clone(), at, length - 8);
    assert!(stream.next().is_some());
    assert!(stream.next().is_some());
    assert!(stream.next().is_none());
    assert!(stream.next().is_none());

    // Started one byte late, nothing is a record.
    let mut stream = UnwrappedStreamDeserializer::new(buffer.clone(), at + 1, length - 1);
    assert!(stream.next().is_none());

    let mut stream = UnwrappedStreamDeserializer::new(buffer, u64::MAX, u64::MAX);
    assert!(stream.next().is_none());
}

#[test]
fn parameter_equality_ignores_span() {
    let span = Span { module: 3, from_line: 1, from_col: 2, to_line: 1, to_col: 9 };
    let a: Parameter<u64> = Parameter::private(42);
    let b: Parameter<u64> = Parameter::new(42, true).span(Some(span));
    assert_eq!(a.get_span(), None);
    assert_eq!(b.get_span(), Some(span));
    assert_eq!(a, b);
    assert_eq!(a.key(), (42, true));
    let mut ha = DefaultHasher::new();
    a.hash(&mut ha);
    let mut hb = DefaultHasher::new();
    b.hash(&mut hb);
    assert_eq!(ha.finish(), hb.finish());
    assert_ne!(a, Parameter::public(42));
    assert_ne!(a, Parameter::private(43));
}

#[test]
fn spans_are_not_written() {
    let span = Span { module: 3, from_line: 1, from_col: 2, to_line: 1, to_col: 9 };
    let with: Prog = ProgIterator::new(
        vec![Parameter::public(1).span(Some(span))],
        vec![],
        0,
        ModuleMap::default(),
        vec![],
    );
    let without: Prog =
        ProgIterator::new(vec![Parameter::public(1)], vec![], 0, ModuleMap::default(), vec![]);
    let mut a: Vec<u8> = Vec::new();
    let mut b: Vec<u8> = Vec::new();
    with.serialize(BN128, &mut a).unwrap();
    without.serialize(BN128, &mut b).unwrap();
    assert_eq!(a, b);
    let back = round_trip(
        ProgIterator::new(
            vec![Parameter::public(1).span(Some(span))],
            vec![],
            0,
            ModuleMap::default(),
            vec![],
        ),
        BN128,
    );
    assert_eq!(back.arguments[0].get_span(), None);
}

#[test]
fn parameter_order_ignores_span() {
    let span = Span { module: 1, from_line: 2, from_col: 3, to_line: 4, to_col: 5 };
    let a: Parameter<u64> = Parameter::public(7).span(Some(span));
    let b: Parameter<u64> = Parameter::public(7);
    assert_eq!(a.partial_cmp(&b), Some(std::cmp::Ordering::Equal));
    assert!(Parameter::public(7u64) < Parameter::private(7u64));
    assert!(Parameter::private(6u64) < Parameter::public(7u64));
    assert!(Parameter::private(8u64).span(Some(span)) > Parameter::private(7u64));
}
