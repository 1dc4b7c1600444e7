use cecli::cil::exceptions::{
    parse_sections, requires_fat_section, write_clause, write_section, ExceptionHandler,
    ExceptionHandlerType, FAT_CLAUSE_SIZE, SMALL_CLAUSE_SIZE,
};
use cecli::io::ByteWriter;
use cecli::token::Token;


fn sample_handlers() -> Vec<ExceptionHandler> {
    let mut catch = ExceptionHandler::new(ExceptionHandlerType::Catch);
    catch.try_start = 4;
    catch.try_length = 20;
    catch.handler_start = 24;
    catch.handler_length = 12;
    catch.catch_type = Token(0x0100_0015);
    assert_eq!(SMALL_CLAUSE_SIZE, 12);
    assert_eq!(FAT_CLAUSE_SIZE, 24);

    let mut filter = ExceptionHandler::new(ExceptionHandlerType::Filter);
    filter.try_start = 40;
    filter.try_length = 30;
    filter.handler_start = 80;
    filter.handler_length = 16;
    filter.filter_start = Some(70);

    let mut finally = ExceptionHandler::new(ExceptionHandlerType::Finally);
    finally.try_start = 100;
    finally.try_length = 50;
    finally.handler_start = 150;
    finally.handler_length = 20;

    let mut fault = ExceptionHandler::new(ExceptionHandlerType::Fault);
    fault.try_start = 200;
    fault.try_length = 10;
    fault.handler_start = 210;
    fault.handler_length = 8;

    vec![catch, filter, finally, fault]
}

/// Small-form roundtrip preserves offsets, lengths, kind.
#[test]
fn small_section_roundtrip() {
    let handlers = sample_handlers();
    let bytes = write_section(&handlers, false).unwrap();
    // 4 handlers * 12 + 4 header bytes.
    assert_eq!(bytes.len(), 4 * SMALL_CLAUSE_SIZE + 4);
    let (parsed, more) = parse_sections(&bytes).unwrap();
    assert!(!more);
    assert_eq!(parsed, handlers);
}

/// Fat-form roundtrip preserves offsets, lengths, kind.
#[test]
fn fat_section_roundtrip() {
    let mut handlers = sample_handlers();
    for h in &mut handlers {
        h.try_start += 100_000; // beyond small-form limits
        h.try_length *= 100; // beyond one byte
    }
    let bytes = write_section(&handlers, false).unwrap();
    assert_eq!(bytes.len(), 4 * FAT_CLAUSE_SIZE + 4);
    let (parsed, _) = parse_sections(&bytes).unwrap();
    assert_eq!(parsed, handlers);

    // Forced-fat encoding of small-range values stays equivalent.
    let small = sample_handlers();
    let forced = write_section(&small, true).unwrap();
    let (parsed_forced, _) = parse_sections(&forced).unwrap();
    assert_eq!(parsed_forced, small);
}

/// Small <-> fat conversion preserves the semantic content.
#[test]
fn small_to_fat_conversion_preserves_semantics() {
    let handlers = sample_handlers();
    let small_bytes = write_section(&handlers, false).unwrap();
    let (from_small, _) = parse_sections(&small_bytes).unwrap();

    let fat_bytes = write_section(&handlers, true).unwrap();
    let (from_fat, _) = parse_sections(&fat_bytes).unwrap();

    assert_eq!(from_small, from_fat);
    assert_eq!(from_fat.len(), handlers.len());
    for (a, b) in from_fat.iter().zip(handlers.iter()) {
        assert_eq!(
            (a.try_start, a.try_length, a.handler_start, a.handler_length),
            (b.try_start, b.try_length, b.handler_start, b.handler_length)
        );
        assert_eq!(a.handler_type, b.handler_type);
    }
}

#[test]
fn small_rejects_out_of_range_values() {
    let mut handler = ExceptionHandler::new(ExceptionHandlerType::Finally);
    handler.try_start = 70_000;
    assert!(write_clause(&mut ByteWriter::new(), &handler, false).is_err());

    handler.try_start = 1;
    handler.handler_length = 300;
    assert!(write_clause(&mut ByteWriter::new(), &handler, false).is_err());
}

#[test]
fn requires_fat_heuristics_match_cecil() {
    let handlers = sample_handlers();
    assert!(!requires_fat_section(&handlers, false));
    assert!(requires_fat_section(&handlers, true));

    let mut many: Vec<ExceptionHandler> = Vec::new();
    for i in 0..0x15u32 {
        let mut h = ExceptionHandler::new(ExceptionHandlerType::Finally);
        h.try_start = i as i32;
        many.push(h);
    }
    // 21 handlers still fit the size byte (21*12+4 = 256 > 255 actually
    // forces fat through write_section, but the heuristic itself is
    // count >= 0x15).
    assert!(requires_fat_section(&many, false));
}

#[test]
fn another_flagged_section_is_told() {
    let (handlers, more) = parse_sections(&[0x81, 4, 0, 0, 0x01, 4, 0, 0]).unwrap();
    assert!(handlers.is_empty());
    assert!(more);
    let (_, more) = parse_sections(&[0x01, 4, 0, 0]).unwrap();
    assert!(!more);
}
