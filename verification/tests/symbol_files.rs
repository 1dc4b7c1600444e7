use cecli::error::Error;
use cecli::mdb::{MdbReader, MdbWriter};
use cecli::metadata::{decode_coded, MetadataBuilder, MetadataReader};
use cecli::pdb::portable_reader::{PortablePdbReader, SequencePoint, HIDDEN_LINE};
use cecli::pdb::portable_writer::{encode_sequence_points, PortablePdbBuilder};
use cecli::pdb::sequence_points::decode_points;
use cecli::token::{CodedGroup, TableIndex, Token};

fn method(rid: u32) -> Token {
    Token::new(TableIndex::MethodDef, rid)
}

#[test]
fn methods_of_a_symbol_file_are_sorted_by_token() {
    let mut w = MdbWriter::new([1; 16]);
    let s = w.add_source("a.cs");
    let cu = w.add_compile_unit(&[s]);
    w.add_method_lines(method(9), cu, &[(0, 1)], s);
    w.add_method_lines(method(2), cu, &[(0, 2), (7, 3)], s);
    let bytes = w.finalize();
    let r = MdbReader::open(&bytes).unwrap();
    let tokens: Vec<Token> = r.methods().iter().map(|m| m.token).collect();
    assert_eq!(tokens, vec![method(2), method(9)]);
    assert_eq!(r.method_lines(1).unwrap().unwrap().line_numbers, vec![2, 3]);
    assert_eq!(r.method_lines(2).unwrap().unwrap().il_offsets, vec![0]);
    assert_eq!(r.method_lines(0).unwrap(), None);
    assert_eq!(r.minor_version(), 0);
    assert_eq!(r.offset_table().method_count, 2);
}

#[test]
fn damaged_symbol_files_are_bad_images() {
    assert!(matches!(MdbReader::open(&[]), Err(Error::BadImage(_))));
    assert!(matches!(MdbReader::open(&[0; 112]), Err(Error::BadImage(_))));
    let mut w = MdbWriter::new([1; 16]);
    assert!(matches!(
        w.add_local_variable(method(1), 0, "x", 0),
        Err(Error::InvalidOperation(_)) | Err(Error::Argument(_))
    ));
}

fn point(offset: i32, line: u32, column: u32) -> SequencePoint {
    SequencePoint {
        offset,
        start_line: line,
        start_column: column,
        end_line: line,
        end_column: column + 5,
    }
}

#[test]
fn sequence_points_survive_their_stream() {
    let hidden = SequencePoint {
        offset: 3,
        start_line: HIDDEN_LINE,
        start_column: 0,
        end_line: HIDDEN_LINE,
        end_column: 0,
    };
    let points = vec![point(0, 10, 4), hidden, point(8, 7, 1), point(300, 70_000, 90)];
    let blob = encode_sequence_points(0, &points).unwrap();
    let (document, read, documents) = decode_points(&blob, 4).unwrap();
    assert_eq!(document, 4);
    assert_eq!(read, points);
    assert_eq!(documents, vec![4; 4]);
}

#[test]
fn custom_information_and_scopes_stand_in_their_tables() {
    let mut b = PortablePdbBuilder::new();
    let doc = b.add_document("x/y.cs", [1; 16], &[1, 2], [2; 16]);
    b.set_method_sequence_points(method(2), doc, &[point(0, 1, 1)]).unwrap();
    b.add_custom_debug_information(method(2), [3; 16], &[9, 9]).unwrap();
    let import = b.add_import_scope(0, &[]);
    b.add_local_scope(method(2), import, &[(0, "v".to_owned(), 0)], &[], 0, 0, 4);
    b.add_local_scope(method(1), import, &[], &[("c", &[0x08, 1, 0, 0, 0])], 0, 0, 2);
    let bytes = b.finalize().unwrap();
    let md = MetadataReader::parse(&bytes).unwrap();
    assert_eq!(md.row_count(TableIndex::CustomDebugInformation), 1);
    assert_eq!(md.row_count(TableIndex::MethodDebugInformation), 2);
    let r = PortablePdbReader::parse(&bytes).unwrap();
    assert!(r.sequence_points(1).unwrap().is_none());
    let (rid, points) = r.sequence_points(2).unwrap().unwrap();
    assert_eq!((rid, points), (1, vec![point(0, 1, 1)]));
    assert_eq!(r.document(1).unwrap().name, "x/y.cs");
    assert!(r.document(2).is_err());
    let scopes = r.local_scopes(2).unwrap();
    assert_eq!(scopes.len(), 1);
    assert_eq!(r.local_variables(&scopes[0]).unwrap()[0].name, "v");
    let scopes = r.local_scopes(1).unwrap();
    assert_eq!(r.local_constants(&scopes[0]).unwrap()[0].name, "c");
}

#[test]
fn local_variables_beyond_the_file_are_bad_images() {
    let mut w = MdbWriter::new([1; 16]);
    let s = w.add_source("a.cs");
    let cu = w.add_compile_unit(&[s]);
    w.add_method_lines(method(1), cu, &[(0, 1)], s);
    w.add_local_variable(method(1), 0, "x", 0).unwrap();
    let bytes = w.finalize();
    let r = MdbReader::open(&bytes).unwrap();
    assert_eq!(r.locals(1).unwrap().unwrap()[0].name, "x");
    // The payload is seven variable-length integers: the unit, and then the
    // offset of the local variables, which takes two bytes here.
    let table = r.offset_table().method_table_offset as usize;
    let payload =
        u32::from_le_bytes([bytes[table + 4], bytes[table + 5], bytes[table + 6], bytes[table + 7]])
            as usize;
    let mut bad = bytes.clone();
    assert_eq!(bad[payload + 1] & 0x80, 0x80);
    assert_eq!(bad[payload + 2] & 0x80, 0);
    bad[payload + 2] = 0x7F;
    assert!(matches!(MdbReader::open(&bad), Err(Error::BadImage(_))));
}

#[test]
fn lines_of_many_calls_are_kept_once_with_the_largest_line() {
    let mut w = MdbWriter::new([1; 16]);
    let s = w.add_source("a.cs");
    let cu = w.add_compile_unit(&[s]);
    w.add_method_lines(method(7), cu, &[(4, 9), (0, 3)], s);
    w.mark_sequence_points(method(3), 5, 6, &[(2, 2, s)]);
    w.mark_sequence_points(method(7), 8, 9, &[(4, 11, s), (2, 5, s), (0, 1, s)]);
    let bytes = w.finalize();
    let r = MdbReader::open(&bytes).unwrap();
    let rows: Vec<_> =
        r.methods().iter().map(|m| (m.row, m.token, m.compile_unit, m.namespace_id)).collect();
    assert_eq!(rows, vec![(1, method(3), 5, 6), (2, method(7), cu, 0)]);
    let lines = r.method_lines(2).unwrap().unwrap();
    assert_eq!(lines.il_offsets, vec![0, 2, 4]);
    assert_eq!(lines.line_numbers, vec![3, 5, 11]);
}

#[test]
fn distances_have_to_fit_compressed_integers() {
    let far = |d: u32| vec![point(0, 1, 1), point(5, 1 + d, 1)];
    assert!(encode_sequence_points(0, &far(0x0FFF_FFFF)).is_ok());
    assert!(matches!(
        encode_sequence_points(0, &far(0x1000_0000)),
        Err(Error::Argument(_))
    ));
    assert!(matches!(
        encode_sequence_points(0, &far(0x2000_0000)),
        Err(Error::Argument(_))
    ));
}

#[test]
fn tables_that_are_only_recorded_have_no_rows() {
    let mut b = MetadataBuilder::new("v4.0.30319");
    b.set_pdb_heap([1; 20], Token(0), &[(TableIndex::Document.to_u8(), 5)]);
    let bytes = b.finalize();
    let r = PortablePdbReader::parse(&bytes).unwrap();
    assert_eq!(r.metadata().row_count(TableIndex::Document), 0);
    assert!(r.documents().unwrap().is_empty());
    assert!(r.sequence_points(1).is_err());
}

#[test]
fn custom_information_and_imports_read_back_verbatim() {
    let mut b = PortablePdbBuilder::new();
    b.add_custom_debug_information(method(2), [3; 16], &[9, 0, 9]).unwrap();
    b.add_import_scope(0, &[7, 7]);
    b.add_import_scope(1, &[]);
    let bytes = b.finalize().unwrap();
    let r = MetadataReader::parse(&bytes).unwrap();
    let row = r.row(TableIndex::CustomDebugInformation, 1).unwrap();
    let group = CodedGroup::HasCustomDebugInformation.group();
    assert_eq!(decode_coded(&group, row[0]), Some((TableIndex::MethodDef, 2)));
    assert_eq!(r.heaps().guid.get(row[1] as u32).unwrap(), [3; 16]);
    assert_eq!(r.heaps().blob.get(row[2] as u32).unwrap(), &[9, 0, 9]);
    let row = r.row(TableIndex::ImportScope, 1).unwrap();
    assert_eq!(row[0], 0);
    assert_eq!(r.heaps().blob.get(row[1] as u32).unwrap(), &[7, 7]);
    assert_eq!(r.row(TableIndex::ImportScope, 2).unwrap(), vec![1, 0]);
}

#[test]
fn different_strings_have_different_indexes() {
    let mut b = MetadataBuilder::new("v");
    assert_eq!(b.insert_string(""), 0);
    let a = b.insert_string("a");
    b.insert_blob(&[1, 2]);
    let c = b.insert_string("c");
    assert_ne!(a, c);
    assert_ne!(a, 0);
    assert_eq!(b.insert_string("a"), a);
    let bytes = b.finalize();
    let r = MetadataReader::parse(&bytes).unwrap();
    assert_eq!(r.heaps().strings.get(a).unwrap(), "a");
    assert_eq!(r.heaps().strings.get(c).unwrap(), "c");
}

#[test]
fn points_at_one_offset_are_refused() {
    let point =
        SequencePoint { offset: 4, start_line: 1, start_column: 1, end_line: 1, end_column: 5 };
    let later = SequencePoint { offset: 5, ..point };
    let mut b = PortablePdbBuilder::new();
    let doc = b.add_document("a.cs", [0; 16], &[], [0; 16]);
    let method = Token::new(TableIndex::MethodDef, 1);
    let err = b.set_method_sequence_points(method, doc, &[point, point]).unwrap_err();
    assert!(matches!(err, Error::Argument(_)));
    assert!(b.set_method_sequence_points(method, doc, &[point, later]).is_ok());
}
