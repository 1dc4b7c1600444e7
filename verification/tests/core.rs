use cecli::flags::SecurityAction;
use cecli::io::{ByteReader, ByteWriter};

/// The DeclSecurity action codes 11–15 (PreJit/NonCas family) are
/// constructible, display under their names, and round-trip
/// through the reader-side [`SecurityAction::from_u16`] helper.
#[test]
fn prejit_and_noncas_actions_construct_and_display() {
    let actions = [
        (11u16, SecurityAction::PreJitGrant, "PreJitGrant"),
        (12, SecurityAction::PreJitDeny, "PreJitDeny"),
        (13, SecurityAction::NonCasDemand, "NonCasDemand"),
        (14, SecurityAction::NonCasLinkDemand, "NonCasLinkDemand"),
        (
            15,
            SecurityAction::NonCasInheritance,
            "NonCasInheritance",
        ),
    ];
    for (code, action, name) in actions {
        assert_eq!(action.to_u16(), code);
        assert_eq!(SecurityAction::from_u16(code), Some(action));
        assert_eq!(action.name(), name);
    }
}

#[test]
fn security_action_from_u16_rejects_unknown() {
    assert_eq!(SecurityAction::from_u16(0), None);
    assert_eq!(SecurityAction::from_u16(16), None);
    // Known low codes still resolve.
    assert_eq!(SecurityAction::from_u16(2), Some(SecurityAction::Demand));
}

#[test]
fn compressed_uint_roundtrip() {
    let cases = [0u32, 1, 0x7F, 0x80, 0xFF, 0x100, 0x3FFF, 0x4000, 0xFFFF, 0x1FFF_FFFF - 1, 0x1FFF_FFFF];
    for &c in &cases {
        let mut w = ByteWriter::new();
        w.compressed_u32(c);
        let encoded = w.into_vec();
        let mut r = ByteReader::new(&encoded);
        assert_eq!(r.compressed_u32().unwrap(), c, "case {c:#x}");
        assert_eq!(r.position(), encoded.len());
    }
}

#[test]
fn compressed_int_roundtrip() {
    let cases = [0i32, 1, -1, 63, -64, 8191, -8192, 268_435_455, -268_435_456, 134_217_727, -134_217_728];
    for &c in &cases {
        let mut w = ByteWriter::new();
        w.compressed_i32(c);
        let encoded = w.into_vec();
        let mut r = ByteReader::new(&encoded);
        assert_eq!(r.compressed_i32().unwrap(), c, "case {c}");
    }
}
#[test]
fn primitive_roundtrip() {
    let mut w = ByteWriter::new();
    w.u16(0xABCD);
    w.i64(-5);
    w.f32_bits(1.5f32.to_bits());
    w.bytes(b"xy");
    let data = w.into_vec();
    let mut r = ByteReader::new(&data);
    assert_eq!(r.u16().unwrap(), 0xABCD);
    assert_eq!(r.i64().unwrap(), -5);
    assert_eq!(f32::from_bits(r.f32_bits().unwrap()), 1.5);
    assert_eq!(r.read_bytes(2).unwrap(), b"xy");
}

#[test]
fn overflow_is_error() {
    let mut r = ByteReader::new(&[1u8]);
    assert!(r.u16().is_err());
}

#[test]
fn align_works() {
    let mut r = ByteReader::at(&[0u8; 8], 3);
    r.align(4).unwrap();
    assert_eq!(r.position(), 4);
    let mut w = ByteWriter::new();
    w.u8(1);
    w.align(4);
    assert_eq!(w.len(), 4);
}
