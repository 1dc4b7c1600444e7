use cecli::error::Error;
use cecli::io::ByteWriter;
use cecli::metadata::{parse_root, stream_slice, write_root, MetadataBuilder};
use cecli::pdb::document::Document;
use cecli::pdb::embedded::{pdb_checksum_payload, unwrap_embedded, wrap_embedded};
use cecli::pdb::portable_reader::{
    LocalVariableInfo, PortablePdbReader, SequencePoint, HIDDEN_LINE,
};
use cecli::pdb::portable_writer::{
    document_name_separator, encode_sequence_points, DocumentHandle, PortablePdbBuilder, ScopeHandle,
};
use cecli::token::{TableIndex, Token};

#[test]
fn display_uses_name() {
    let doc = Document::new("/src/main.cs");
    assert_eq!(doc.display(), "/src/main.cs");
    assert_eq!(doc.hash, Vec::<u8>::new());
    assert_eq!(doc.language, [0; 16]);
}

#[test]
fn wrap_unwrap_roundtrips() {
    let pdb = vec![0x42u8; 1000]; // compressible
    let wrapped = wrap_embedded(&pdb).expect("wrap");
    assert_eq!(&wrapped[..4], b"MPDB");
    assert_eq!(u32::from_le_bytes(wrapped[4..8].try_into().unwrap()), 1000);
    assert!(wrapped.len() < pdb.len(), "payload compresses");
    let back = unwrap_embedded(&wrapped).expect("unwrap");
    assert_eq!(back, pdb);
}

#[test]
fn unwrap_rejects_bad_magic_and_size() {
    assert!(unwrap_embedded(b"nope").is_err());
    assert!(unwrap_embedded(&[]).is_err());
    // Declared size lying about the content.
    let mut lying = Vec::new();
    lying.extend_from_slice(b"MPDB");
    lying.extend_from_slice(&999u32.to_le_bytes());
    lying.extend_from_slice(&[0x78]); // not valid raw deflate of 999 bytes
    assert!(unwrap_embedded(&lying).is_err());
}

#[test]
fn checksum_payload_shape() {
    let payload = pdb_checksum_payload(b"abc");
    assert_eq!(&payload[..7], b"SHA256\0");
    assert_eq!(payload.len(), 7 + 32);
}

// -- fixture helpers -------------------------------------------------

/// Composes a `Document` name blob from a separator and literal segments.
/// Segment strings are inserted into `#Blob` first, then referenced by
/// compressed index inside the name blob.
fn document_name(builder: &mut MetadataBuilder, separator: u8, parts: &[&str]) -> Vec<u8> {
    let mut w = ByteWriter::new();
    w.u8(separator);
    for part in parts {
        let idx = builder.insert_blob(part.as_bytes());
        w.compressed_u32(idx);
    }
    w.into_vec()
}

/// Builds the sequence-point record stream for the fixture method.
///
/// `ReadSequencePoints`): `delta_il`, `delta_lines`,
/// `delta_columns` (signed when lines move), then either absolute
/// start line/column (first non-hidden record) or signed
/// line/column deltas. Hidden records are three zero deltas.
fn sequence_point_blob() -> Vec<u8> {
    let mut w = ByteWriter::new();
    w.compressed_u32(0); // local signature token (unused)
                         // Hidden point at offset 0.
    w.compressed_u32(0);
    w.compressed_u32(0);
    w.compressed_u32(0);
    // First non-hidden: offset 4, line 100..101, column 1..11.
    w.compressed_u32(4); // delta il
    w.compressed_u32(1); // delta lines
    w.compressed_i32(10); // delta columns
    w.compressed_u32(100); // absolute start line
    w.compressed_u32(1); // absolute start column
                         // Offset 10: line 102..104, column 11..19.
    w.compressed_u32(6); // delta il
    w.compressed_u32(2); // delta lines
    w.compressed_i32(8); // delta columns
    w.compressed_i32(2); // delta start line
    w.compressed_i32(10); // delta start column
                          // Mid-stream document switch to document rid 2.
    w.compressed_u32(0);
    w.compressed_u32(2);
    // Offset 11 in document 2: line 104..105, column 15..11.
    w.compressed_u32(1); // delta il
    w.compressed_u32(1); // delta lines
    w.compressed_i32(-4); // delta columns
    w.compressed_i32(2); // delta start line
    w.compressed_i32(4); // delta start column
    w.into_vec()
}

/// Truncated stream: dies mid-record after the line delta.
fn truncated_sequence_point_blob() -> Vec<u8> {
    let mut w = ByteWriter::new();
    w.compressed_u32(0); // local signature token
    w.compressed_u32(4); // delta il
    w.compressed_u32(1); // delta lines
                         // EOF before delta columns.
    w.into_vec()
}

/// Builds a complete standalone portable PDB image around the given
/// `MethodDebugInformation` blob for method rid 1.
fn build_pdb(mdi_blob: &[u8]) -> Vec<u8> {
    let mut b = MetadataBuilder::new("v4.0.30319");

    // Heaps.
    let s_x = b.insert_string("x") as u64;
    let s_y = b.insert_string("y") as u64;
    let s_pi = b.insert_string("PI") as u64;

    let alg_csharp: [u8; 16] = [
        0x88, 0x29, 0x85, 0xA2, 0x1F, 0x72, 0xCE, 0x46, 0xA9, 0x6B, 0x35, 0xFD, 0x0B, 0x25,
        0xFA, 0xF9,
    ];
    let lang_csharp: [u8; 16] = [
        0x03, 0x63, 0x59, 0xFF, 0xB5, 0x86, 0xC2, 0x4F, 0xAB, 0xF4, 0xD7, 0xE8, 0xFE, 0x35,
        0xE5, 0x1C,
    ];
    let alg_other = [0x21u8; 16];
    let lang_other = [0x42u8; 16];
    let alg1 = b.insert_guid(&alg_csharp) as u64;
    let lang1 = b.insert_guid(&lang_csharp) as u64;
    let alg2 = b.insert_guid(&alg_other) as u64;
    let lang2 = b.insert_guid(&lang_other) as u64;

    let name1_blob = document_name(&mut b, b'/', &["src", "prog.cs"]);
    let name2_blob = document_name(&mut b, 0, &["unit", "tests.cs"]);

    let hash1 = b.insert_blob(&[0x11u8; 32]) as u64;
    let name1 = b.insert_blob(&name1_blob) as u64;
    let hash2 = b.insert_blob(&[]) as u64; // empty hash -> blob index 0
    let name2 = b.insert_blob(&name2_blob) as u64;

    let seq1 = b.insert_blob(mdi_blob) as u64;
    let const_sig = b.insert_blob(&{
        let mut sig = ByteWriter::new();
        sig.u8(0x0C); // ELEMENT_TYPE_R8
        sig.f64_bits(core::f64::consts::PI.to_bits());
        sig.into_vec()
    }) as u64;

    // Documents (2 rows).
    b.add_row(TableIndex::Document, &[name1, alg1, hash1, lang1]).unwrap();
    b.add_row(TableIndex::Document, &[name2, alg2, hash2, lang2]).unwrap();

    // MethodDebugInformation: rid 1 carries points, rid 2 is empty.
    b.add_row(TableIndex::MethodDebugInformation, &[1, seq1]).unwrap();
    b.add_row(TableIndex::MethodDebugInformation, &[2, 0]).unwrap();

    // Import scope rid 1 (no parent, empty imports blob).
    b.add_row(TableIndex::ImportScope, &[0, 0]).unwrap();

    let lv1 = b.add_row(TableIndex::LocalVariable, &[0, 0, s_x]).unwrap() as u64;
    let _lv2 = b.add_row(TableIndex::LocalVariable, &[0, 1, s_y]).unwrap() as u64;
    let lc1 = b.add_row(TableIndex::LocalConstant, &[s_pi, const_sig]).unwrap() as u64;

    // One scope over method 1 covering IL [0, 12).
    b.add_row(TableIndex::LocalScope, &[1, 1, lv1, lc1, 0, 12]).unwrap();

    // State machine: move-next method 2 kicks off at method 1.
    b.add_row(TableIndex::StateMachineMethod, &[2, 1]).unwrap();

    // Capture debug-table row counts for the #Pdb heap before finalize.
    let debug_tables: Vec<(TableIndex, u32)> = [
        TableIndex::Document,
        TableIndex::MethodDebugInformation,
        TableIndex::LocalScope,
        TableIndex::LocalVariable,
        TableIndex::LocalConstant,
        TableIndex::ImportScope,
        TableIndex::StateMachineMethod,
    ]
    .into_iter()
    .filter_map(|t| {
        let n = b.row_count(t);
        (n > 0).then_some((t, n))
    })
    .collect();

    let base = b.finalize();

    // Re-emit the BSJB root with an appended #Pdb stream (the builder
    // itself emits type-system roots only).
    let header = parse_root(&base).expect("fixture parses");
    let mut streams: Vec<(&str, &[u8])> = header
        .streams
        .iter()
        .map(|s| {
            let payload = stream_slice(&base, s).expect("stream bounds");
            (s.name.as_str(), payload)
        })
        .collect();

    let pdb_payload = {
        let mut w = ByteWriter::new();
        w.bytes(&[0xC0u8; 20]); // 20-byte PDB id
        w.u32(0x0600_0001); // entry point token
        let mut mask: u64 = 0;
        for (t, _) in &debug_tables {
            mask |= 1u64 << t.to_u8();
        }
        w.u64(mask);
        for (_, n) in &debug_tables {
            w.u32(*n);
        }
        w.into_vec()
    };
    streams.push(("#Pdb", pdb_payload.as_slice()));

    write_root(header.version.trim_end_matches('\0'), &streams)
}


#[test]
fn roundtrip_documents_and_id() {
    let bytes = build_pdb(&sequence_point_blob());
    let reader = PortablePdbReader::parse(&bytes).expect("parses");

    assert_eq!(reader.pdb_id(), [0xC0u8; 20]);
    assert_eq!(reader.entry_point(), Token(0x0600_0001));

    let docs = reader.documents().expect("documents");
    assert_eq!(docs.len(), 2);

    // Separator '/' joins segments; zero separator concatenates directly.
    assert_eq!(docs[0].name, "src/prog.cs");
    assert_eq!(docs[1].name, "unittests.cs");

    assert_eq!(docs[0].hash_algorithm, ALG_CSHARP);
    assert_eq!(docs[0].language, LANG_CSHARP);
    assert_eq!(docs[0].hash, vec![0x11u8; 32]);

    assert_eq!(docs[1].hash_algorithm, [0x21u8; 16]);
    assert_eq!(docs[1].language, [0x42u8; 16]);
    assert!(docs[1].hash.is_empty());

    assert_eq!(docs[0].display(), "src/prog.cs");
}

const ALG_CSHARP: [u8; 16] = [
    0x88, 0x29, 0x85, 0xA2, 0x1F, 0x72, 0xCE, 0x46, 0xA9, 0x6B, 0x35, 0xFD, 0x0B, 0x25, 0xFA,
    0xF9,
];
const LANG_CSHARP: [u8; 16] = [
    0x03, 0x63, 0x59, 0xFF, 0xB5, 0x86, 0xC2, 0x4F, 0xAB, 0xF4, 0xD7, 0xE8, 0xFE, 0x35, 0xE5,
    0x1C,
];

#[test]
fn sequence_points_roundtrip() {
    let bytes = build_pdb(&sequence_point_blob());
    let reader = PortablePdbReader::parse(&bytes).unwrap();

    let (doc, points) = reader.sequence_points(1).expect("points").expect("some");
    assert_eq!(doc, 1);
    assert_eq!(points.len(), 4);

    // Hidden sentinel point at offset 0.
    assert!(points[0].is_hidden());
    assert_eq!(points[0].offset, 0);
    assert_eq!(points[0].start_line, HIDDEN_LINE);
    assert_eq!(points[0].end_line, HIDDEN_LINE);
    assert_eq!(points[0].start_column, 0);
    assert_eq!(points[0].end_column, 0);

    // First non-hidden record resolves absolute coordinates.
    assert!(!points[1].is_hidden());
    assert_eq!(points[1].offset, 4);
    assert_eq!(points[1].start_line, 100);
    assert_eq!(points[1].start_column, 1);
    assert_eq!(points[1].end_line, 101);
    assert_eq!(points[1].end_column, 11);

    // Deltas accumulate onto the running position.
    assert_eq!(points[2].offset, 10);
    assert_eq!(points[2].start_line, 102);
    assert_eq!(points[2].start_column, 11);
    assert_eq!(points[2].end_line, 104);
    assert_eq!(points[2].end_column, 19);

    // Record after the document switch.
    assert_eq!(points[3].offset, 11);
    assert_eq!(points[3].start_line, 104);
    assert_eq!(points[3].end_line, 105);
    assert_eq!(points[3].start_column, 15);
    assert_eq!(points[3].end_column, 11);

    // Per-point document mapping reflects the mid-stream switch.
    let docs = reader.sequence_point_documents(1).unwrap();
    assert_eq!(docs, vec![1, 1, 1, 2]);
}

#[test]
fn empty_debug_information_is_none() {
    let bytes = build_pdb(&sequence_point_blob());
    let reader = PortablePdbReader::parse(&bytes).unwrap();
    // Row 2 exists with blob index 0.
    assert!(reader.sequence_points(2).unwrap().is_none());
    assert!(reader.sequence_point_documents(2).unwrap().is_empty());
    // Out-of-range rid is an error, not None.
    assert!(reader.sequence_points(9).is_err());
}

#[test]
fn scopes_locals_and_constants() {
    let bytes = build_pdb(&sequence_point_blob());
    let reader = PortablePdbReader::parse(&bytes).unwrap();

    let scopes = reader.local_scopes(1).expect("scopes");
    assert_eq!(scopes.len(), 1);
    let scope = &scopes[0];
    assert_eq!(scope.method, Token::new(TableIndex::MethodDef, 1));
    assert_eq!(scope.import_scope, 1);
    assert_eq!(scope.try_start, 0);
    assert_eq!(scope.try_length, 12);
    assert_eq!(scope.handler_start, -1);
    assert_eq!(scope.handler_length, -1);

    let vars = reader.local_variables(scope).unwrap();
    assert_eq!(
        vars,
        vec![
            LocalVariableInfo { index: 0, attributes: 0, name: "x".into() },
            LocalVariableInfo { index: 1, attributes: 0, name: "y".into() },
        ]
    );

    let consts = reader.local_constants(scope).unwrap();
    assert_eq!(consts.len(), 1);
    assert_eq!(consts[0].name, "PI");
    // Element-type byte 0x0C (R8) + little-endian f64 payload.
    assert_eq!(consts[0].signature[0], 0x0C);
    assert_eq!(consts[0].signature.len(), 9);

    assert!(reader.local_scopes(2).unwrap().is_empty());
}

#[test]
fn state_machine_pairs() {
    let bytes = build_pdb(&sequence_point_blob());
    let reader = PortablePdbReader::parse(&bytes).unwrap();
    assert_eq!(reader.state_machine_kickoff(2), Some(1));
    assert_eq!(reader.state_machine_kickoff(1), None);
    assert_eq!(reader.state_machine_kickoff(99), None);
}

#[test]
fn missing_pdb_heap_is_rejected() {
    // Rebuild the fixture without appending the #Pdb stream: take only
    // the own output of the builder by parsing and re-writing the streams
    // minus #Pdb.
    let bytes = build_pdb(&sequence_point_blob());
    let header = parse_root(&bytes).unwrap();
    let streams: Vec<(&str, &[u8])> = header
        .streams
        .iter()
        .filter(|s| s.name != "#Pdb")
        .map(|s| (s.name.as_str(), stream_slice(&bytes, s).unwrap()))
        .collect();
    let bare = write_root(header.version.trim_end_matches('\0'), &streams);

    match PortablePdbReader::parse(&bare) {
        Err(Error::BadImage(msg)) => assert!(msg.contains("#Pdb")),
        other => panic!("expected missing-#Pdb error, got {:?}", other.map(|_| ())),
    }
}

#[test]
fn truncated_sequence_stream_is_error() {
    let bytes = build_pdb(&truncated_sequence_point_blob());
    let reader = PortablePdbReader::parse(&bytes).unwrap();
    assert!(reader.sequence_points(1).is_err(), "mid-record EOF must surface as Err");
}

#[test]
fn garbage_input_is_error() {
    assert!(PortablePdbReader::parse(&[0u8; 64]).is_err());
    assert!(PortablePdbReader::parse(&[]).is_err());
}

const SHA256_GUID: [u8; 16] = [
    0x88, 0x29, 0x85, 0xA2, 0x1F, 0x72, 0xCE, 0x46, 0xA9, 0x6B, 0x35, 0xFD, 0x0B, 0x25, 0xFA,
    0xF9,
];
const CSHARP_GUID: [u8; 16] = [
    0x03, 0x63, 0x59, 0xFF, 0xB5, 0x86, 0xC2, 0x4F, 0xAB, 0xF4, 0xD7, 0xE8, 0xFE, 0x35, 0xE5,
    0x1C,
];

#[test]
fn sequence_point_blob_matches_spec_encoding() {
    // Single non-hidden point: offset 0, lines 100..101, columns 1..11.
    let points = [SequencePoint {
        offset: 0,
        start_line: 100,
        start_column: 1,
        end_line: 101,
        end_column: 11,
    }];
    let blob = encode_sequence_points(0, &points).unwrap();
    // 00       local sig rid 0
    // 00       absolute IL offset 0
    // 01       delta lines 1
    // 14       compressed_i32(10) delta columns
    // 64       compressed_u32(100) absolute start line
    // 01       compressed_u32(1) absolute start column
    assert_eq!(blob, vec![0x00, 0x00, 0x01, 0x14, 0x64, 0x01]);
    let points = [
        SequencePoint {
            offset: 0,
            start_line: HIDDEN_LINE,
            start_column: 0,
            end_line: HIDDEN_LINE,
            end_column: 0,
        },
        SequencePoint { offset: 5, start_line: 7, start_column: 2, end_line: 7, end_column: 9 },
    ];
    let blob = encode_sequence_points(3, &points).unwrap();
    // Leading sig rid 3, absolute offset 0, hidden sentinel 00 00,
    // delta il 5, same-line deltas (0 then compressed 7), then absolute
    // start position (hidden points leave the baseline untouched).
    assert_eq!(
        blob,
        vec![
            0x03, // local sig rid
            0x00, // offset 0
            0x00, 0x00, // hidden sentinel
            0x05, // delta il 5
            0x00, // delta lines 0
            0x07, // delta columns 7
            0x07, // start line 7
            0x02, // start column 2
        ]
    );
}

#[test]
fn unsorted_or_negative_points_are_rejected() {
    let ok =
        SequencePoint { offset: 4, start_line: 1, start_column: 1, end_line: 1, end_column: 5 };

    // Offset ordering and sign are validated on the public API.
    let mut b = PortablePdbBuilder::new();
    let doc = b.add_document("a.cs", [0; 16], &[], [0; 16]);
    let method = Token::new(TableIndex::MethodDef, 1);

    let backwards = SequencePoint { offset: 2, ..ok };
    let err = b.set_method_sequence_points(method, doc, &[ok, backwards]).unwrap_err();
    assert!(matches!(err, Error::Argument(_)));

    let negative = SequencePoint { offset: -1, ..ok };
    let err = b.set_method_sequence_points(method, doc, &[negative]).unwrap_err();
    assert!(matches!(err, Error::Argument(_)));

    // Span inversions are caught at encode time (finalize).
    let inverted_lines =
        SequencePoint { offset: 0, start_line: 9, start_column: 0, end_line: 3, end_column: 0 };
    assert!(encode_sequence_points(0, &[inverted_lines]).is_err());

    let inverted_columns =
        SequencePoint { offset: 0, start_line: 4, start_column: 9, end_line: 4, end_column: 3 };
    assert!(encode_sequence_points(0, &[inverted_columns]).is_err());
}

#[test]
fn document_name_separator_selection() {
    assert_eq!(document_name_separator("src/prog.cs"), Some('/'));
    assert_eq!(document_name_separator(r"C:\src\prog.cs"), Some('\\'));
    assert_eq!(document_name_separator("mixed/path\\file"), Some('/'));
    assert_eq!(document_name_separator(r"win\path/file"), Some('/'));
    assert_eq!(document_name_separator("plain.cs"), None);
    assert_eq!(document_name_separator(""), None);
}

/// Builds a fully populated portable PDB exercising every table the
/// writer emits, then round-trips it through the reader.
#[test]
fn finalize_output_roundtrips_through_reader() {
    let mut b = PortablePdbBuilder::with_version("v4.0.30319");

    // Documents: slash-separated path with an empty segment, a Windows
    // path, and a bare name (no separator).
    let doc_cs = b.add_document("/src/lib//prog.cs", SHA256_GUID, &[0x11u8; 32], CSHARP_GUID);
    let doc_gen =
        b.add_document(r"C:\gen\obj\prog.Designer.cs", SHA256_GUID, &[0x22u8; 32], CSHARP_GUID);
    let doc_plain = b.add_document("<unknown>", SHA256_GUID, &[], CSHARP_GUID);
    // Deduplication folds identical names onto the first row.
    assert_eq!(b.add_document("/src/lib//prog.cs", [0; 16], &[], [0; 16]), doc_cs);
    assert_ne!(doc_cs, doc_gen);
    assert_ne!(doc_gen, doc_plain);

    // Sequence points for method 0x06000001: hidden sentinel,
    // multi-line span, then a same-line record with a signed baseline
    // jump.
    let points = [
        SequencePoint {
            offset: 0,
            start_line: HIDDEN_LINE,
            start_column: 0,
            end_line: HIDDEN_LINE,
            end_column: 0,
        },
        SequencePoint {
            offset: 4,
            start_line: 100,
            start_column: 1,
            end_line: 102,
            end_column: 3,
        },
        SequencePoint {
            offset: 12,
            start_line: 103,
            start_column: 40,
            end_line: 103,
            end_column: 47,
        },
    ];
    b.set_method_sequence_points(Token::new(TableIndex::MethodDef, 1), doc_cs, &points)
        .unwrap();

    // Second method registered without points keeps the MDI rid aligned
    // with MethodDef rid 2.
    b.set_method_sequence_points(Token::new(TableIndex::MethodDef, 2), doc_gen, &[]).unwrap();

    // Third method with points on the plain-named document.
    let points3 = [SequencePoint {
        offset: 0,
        start_line: 42,
        start_column: 8,
        end_line: 42,
        end_column: 15,
    }];
    b.set_method_sequence_points(Token::new(TableIndex::MethodDef, 3), doc_plain, &points3)
        .unwrap();
    b.set_local_var_sig(Token::new(TableIndex::MethodDef, 3), 7);

    // Import scopes + scopes with variables and constants.
    let root_scope = b.add_import_scope(0, &[0x01, 0x02, 0x03]);
    let nested_scope = b.add_import_scope(root_scope, &[]);
    assert_eq!(root_scope, 1);
    assert_eq!(nested_scope, 2);

    let _s1 = b.add_local_scope(
        Token::new(TableIndex::MethodDef, 1),
        root_scope,
        &[(0u16, "name".to_owned(), 0), (1u16, "count".to_owned(), 1)],
        &[("PI", &[0x0C, 0x18, 0x2D, 0x44, 0x54, 0xFB, 0x21, 0x09, 0x40])],
        0,
        4,
        20,
    );
    let _s2 = b.add_local_scope(
        Token::new(TableIndex::MethodDef, 1),
        nested_scope,
        &[(2u16, "tmp".to_owned(), 0)],
        &[],
        0,
        24,
        8,
    );

    b.set_entry_point(Token::new(TableIndex::MethodDef, 1));
    let id = [
        0xA0u8, 0xA1, 0xA2, 0xA3, 0xA4, 0xA5, 0xA6, 0xA7, 0xA8, 0xA9, 0xAA, 0xAB, 0xAC, 0xAD,
        0xAE, 0xAF, 0xB0, 0xB1, 0xB2, 0xB3,
    ];
    b.set_pdb_id(id);
    b.set_module_guid([0x77u8; 16]);

    let bytes = b.finalize().unwrap();

    let reader = PortablePdbReader::parse(&bytes).expect("own output parses");
    assert_eq!(reader.entry_point(), Token::new(TableIndex::MethodDef, 1));
    assert_eq!(reader.pdb_id(), id);

    // Documents survive verbatim.
    let docs = reader.documents().unwrap();
    assert_eq!(docs.len(), 3);
    assert_eq!(docs[0].name, "/src/lib//prog.cs");
    assert_eq!(docs[0].hash_algorithm, SHA256_GUID);
    assert_eq!(docs[0].hash, vec![0x11u8; 32]);
    assert_eq!(docs[0].language, CSHARP_GUID);
    assert_eq!(docs[1].name, r"C:\gen\obj\prog.Designer.cs");
    assert_eq!(docs[2].name, "<unknown>");
    assert_eq!(docs[2].hash, Vec::<u8>::new());

    // Sequence points come back identically.
    let (doc_rid, decoded) = reader.sequence_points(1).unwrap().expect("points present");
    assert_eq!(doc_rid, doc_cs.0);
    assert_eq!(decoded, points.to_vec());
    assert!(decoded[0].is_hidden());

    // Empty registration yields an aligned but empty MDI row.
    assert!(reader.sequence_points(2).unwrap().is_none());
    let (rid3, decoded3) = reader.sequence_points(3).unwrap().expect("points present");
    assert_eq!(rid3, doc_plain.0);
    assert_eq!(decoded3, points3.to_vec());

    // Scopes, variables, constants.
    let scopes = reader.local_scopes(1).unwrap();
    assert_eq!(scopes.len(), 2);
    assert_eq!(scopes[0].method, Token::new(TableIndex::MethodDef, 1));
    assert_eq!(scopes[0].import_scope, root_scope);
    assert_eq!(scopes[0].try_start, 4);
    assert_eq!(scopes[0].try_length, 20);
    assert_eq!(scopes[0].variables, vec![1, 2]);
    assert_eq!(scopes[0].constants, vec![1]);
    assert_eq!(scopes[1].import_scope, nested_scope);
    assert_eq!(scopes[1].variables, vec![3]);
    assert_eq!(scopes[1].constants, Vec::<u32>::new());

    let vars = reader.local_variables(&scopes[0]).unwrap();
    assert_eq!(vars.len(), 2);
    assert_eq!(vars[0].index, 0);
    assert_eq!(vars[0].name, "name");
    assert_eq!(vars[0].attributes, 0);
    assert_eq!(vars[1].index, 1);
    assert_eq!(vars[1].name, "count");
    assert_eq!(vars[1].attributes, 1);

    let consts = reader.local_constants(&scopes[0]).unwrap();
    assert_eq!(consts.len(), 1);
    assert_eq!(consts[0].name, "PI");
    assert_eq!(consts[0].signature, vec![0x0C, 0x18, 0x2D, 0x44, 0x54, 0xFB, 0x21, 0x09, 0x40]);

    // Mandatory Module row + #Pdb heap bookkeeping.
    let md = reader.metadata();
    assert_eq!(md.row_count(TableIndex::Module), 1);
    assert!(md.heaps().pdb.is_some());
    assert_eq!(md.version_string(), "v4.0.30319");
}

#[test]
fn invalid_inputs_are_errors() {
    let mut b = PortablePdbBuilder::new();
    let doc = b.add_document("a.cs", [0; 16], &[], [0; 16]);

    // Unknown document handle.
    let err = b
        .set_method_sequence_points(
            Token::new(TableIndex::MethodDef, 1),
            DocumentHandle(99),
            &[],
        )
        .unwrap_err();
    assert!(matches!(err, Error::Argument(_)));

    // Non-method tokens.
    let err =
        b.set_method_sequence_points(Token::new(TableIndex::Field, 1), doc, &[]).unwrap_err();
    assert!(matches!(err, Error::Argument(_)));
    assert_eq!(b.set_local_var_sig(Token::new(TableIndex::Field, 1), 1), ());

    // Unsorted points.
    let pts = [
        SequencePoint { offset: 8, start_line: 1, start_column: 1, end_line: 1, end_column: 2 },
        SequencePoint { offset: 4, start_line: 1, start_column: 3, end_line: 1, end_column: 4 },
    ];
    let err = b
        .set_method_sequence_points(Token::new(TableIndex::MethodDef, 1), doc, &pts)
        .unwrap_err();
    assert!(matches!(err, Error::Argument(_)));

    // Bad method token is ignored (no-op) by add_local_scope.
    assert_eq!(
        b.add_local_scope(Token::new(TableIndex::Field, 1), 0, &[], &[], 0, 0, 0),
        ScopeHandle(0)
    );
}

#[test]
fn minimal_builder_emits_valid_empty_pdb() {
    let bytes = PortablePdbBuilder::new().finalize().unwrap();
    let reader = PortablePdbReader::parse(&bytes).expect("empty pdb parses");
    assert_eq!(reader.entry_point(), Token::nil());
    assert_eq!(reader.pdb_id(), [0; 20]);
    assert!(reader.documents().unwrap().is_empty());
    assert_eq!(reader.metadata().row_count(TableIndex::Module), 1);
}
