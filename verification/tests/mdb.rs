use cecli::mdb::reader::{MAGIC, MAJOR_VERSION, OFFSET_TABLE_SIZE};
use cecli::mdb::{MdbReader, MdbWriter, SourceFileEntry};
use cecli::token::{TableIndex, Token};

fn sample_file(guid: [u8; 16]) -> Vec<u8> {
    let mut w = MdbWriter::new(guid);
    let s1 = w.add_source("a.cs");
    let s2 = w.add_source("b.cs");
    let cu = w.add_compile_unit(&[s1, s2]);
    w.add_method_lines(
        Token::new(TableIndex::MethodDef, 1),
        cu,
        &[(0, 10), (4, 11)],
        s1,
    );
    w.mark_sequence_points(
        Token::new(TableIndex::MethodDef, 2),
        cu,
        0,
        &[(0, 20, s1), (4, 30, s2), (8, 21, s1), (12, 31, s2)],
    );
    w.finalize()
}

#[test]
fn rejects_bad_magic() {
    let good = sample_file([7u8; 16]);
    let mut bad = good.clone();
    bad[0] ^= 0xFF;
    assert!(MdbReader::open(&bad).is_err());
}

#[test]
fn rejects_old_version() {
    let mut buf = Vec::new();
    buf.extend_from_slice(&MAGIC.to_le_bytes());
    buf.extend_from_slice(&49i32.to_le_bytes());
    buf.extend_from_slice(&0i32.to_le_bytes());
    buf.extend_from_slice(&[0u8; 16]);
    buf.extend_from_slice(&[0u8; OFFSET_TABLE_SIZE]);
    assert!(MdbReader::open(&buf).is_err());
}

#[test]
fn rejects_truncated_files() {
    let good = sample_file([9u8; 16]);
    for cut in [0usize, 10, 31, 100, 112, good.len() / 2, good.len() - 1] {
        assert!(MdbReader::open(&good[..cut]).is_err(), "truncation at {cut} must be rejected");
    }
}


fn method(table: u8, rid: u32) -> Token {
    Token(((table as u32) << 24) | rid)
}

/// 2 sources, 1 compile unit, 3 methods with
/// interleaved line tables including multiple files per method.
#[test]
fn full_roundtrip() {
    let guid = [
        0x01, 0x23, 0x45, 0x67, 0x89, 0xab, 0xcd, 0xef, 0xfe, 0xdc, 0xba, 0x98, 0x76, 0x54,
        0x32, 0x10,
    ];
    let mut w = MdbWriter::new(guid);
    let s1 = w.add_source("src/first.cs");
    let s2 = w.add_source("src/second.cs");
    assert_eq!(s1, 1);
    assert_eq!(s2, 2);
    let cu = w.add_compile_unit(&[s1, s2]);

    let m1 = method(0x06, 1);
    let m2 = method(0x06, 2);
    let m3 = method(0x06, 3);
    // Register methods out of token order to prove finalize sorts them.
    w.add_method_lines(m1, cu, &[(0, 10), (4, 11), (8, 12)], s1);
    w.mark_sequence_points(
        m2,
        cu,
        0,
        &[(0, 20, s1), (4, 30, s2), (8, 21, s1), (12, 31, s2)],
    );
    w.add_method_lines(m3, cu, &[(0, 40), (2, 41), (100, 42)], s2);

    let bytes = w.finalize();
    let r = MdbReader::open(&bytes).expect("roundtrip file must parse");

    assert_eq!(r.guid(), guid);
    assert_eq!(r.major_version(), MAJOR_VERSION);

    let sources = r.source_files();
    assert_eq!(
        sources,
        vec![
            SourceFileEntry {
                id: 1,
                path: "src/first.cs".into(),
                hash: [0; 16]
            },
            SourceFileEntry {
                id: 2,
                path: "src/second.cs".into(),
                hash: [0; 16]
            },
        ]
    );

    let units = r.compile_units();
    assert_eq!(units.len(), 1);
    assert_eq!(units[0].file_ids, vec![s1, s2]);

    let methods = r.methods();
    assert_eq!(methods.len(), 3);
    assert_eq!(methods[0].row, 1);
    assert_eq!(methods[0].token, m1);
    assert_eq!(methods[1].token, m2);
    assert_eq!(methods[2].token, m3);
    assert!(methods.iter().all(|m| m.compile_unit == cu as u32));

    let l1 = r.method_lines(1).unwrap().unwrap();
    assert_eq!(l1.il_offsets, vec![0, 4, 8]);
    assert_eq!(l1.line_numbers, vec![10, 11, 12]);

    let l2 = r.method_lines(2).unwrap().unwrap();
    assert_eq!(l2.il_offsets, vec![0, 4, 8, 12]);
    assert_eq!(l2.line_numbers, vec![20, 30, 21, 31]);

    let l3 = r.method_lines(3).unwrap().unwrap();
    assert_eq!(l3.il_offsets, vec![0, 2, 100]);
    assert_eq!(l3.line_numbers, vec![40, 41, 42]);

    assert_eq!(r.method_lines(4).unwrap(), None);
}

#[test]
fn source_dedup() {
    let mut w = MdbWriter::new([0; 16]);
    assert_eq!(w.add_source("a.cs"), 1);
    assert_eq!(w.add_source("b.cs"), 2);
    assert_eq!(w.add_source("a.cs"), 1);
    let bytes = w.finalize();
    let r = MdbReader::open(&bytes).unwrap();
    assert_eq!(r.source_files().len(), 2);
}

#[test]
fn locals_roundtrip() {
    let mut w = MdbWriter::new([5; 16]);
    let s = w.add_source("a.cs");
    let cu = w.add_compile_unit(&[s]);
    let m = method(0x06, 7);
    w.add_method_lines(m, cu, &[(0, 1)], s);
    w.add_local_variable(m, 0, "count", 0).unwrap();
    w.add_local_variable(m, 1, "name", 1).unwrap();
    assert!(w.add_local_variable(method(0x06, 8), 0, "x", 0).is_err());

    let bytes = w.finalize();
    let r = MdbReader::open(&bytes).unwrap();
    let locals = r.locals(1).unwrap().unwrap();
    assert_eq!(locals.len(), 2);
    assert_eq!(locals[0].index, 0);
    assert_eq!(locals[0].name, "count");
    assert_eq!(locals[1].block_index, 1);
}

#[test]
fn duplicate_offsets_dedup() {
    let mut w = MdbWriter::new([0; 16]);
    let s = w.add_source("a.cs");
    let cu = w.add_compile_unit(&[s]);
    let m = method(0x06, 1);
    // Same offset twice: higher row wins, only one entry survives.
    w.add_method_lines(m, cu, &[(4, 5), (0, 1), (4, 9)], s);
    let bytes = w.finalize();
    let r = MdbReader::open(&bytes).unwrap();
    let lines = r.method_lines(1).unwrap().unwrap();
    assert_eq!(lines.il_offsets, vec![0, 4]);
    assert_eq!(lines.line_numbers, vec![1, 9]);
}
