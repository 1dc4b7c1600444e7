//! Laws of what is said when something cannot be read or written: which message
//! comes when, and which numbers it names.

use vstd::prelude::*;

use crate::bytes;
use crate::cil::body;
use crate::cil::instruction;
use crate::cil::instruction::OperandView;
use crate::cil::opcode::OperandType;
use crate::encoding_laws;
use crate::io;
use crate::mdb::reader;
use crate::metadata::heaps;
use crate::metadata::tables::TableShape;
use crate::pdb::embedded;
use crate::pe;
use crate::text;
use crate::token::TableIndex;

verus! {

/// A read beyond the end names how much was asked for, where, and what was left.
pub proof fn short_reads_are_told(n: nat, pos: nat, len: nat, left: nat)
    requires
        pos <= len ==> left == len - pos,
        pos > len ==> left == 0,
    ensures
        io::short_read(n, pos, len) == "read "@ + text::decimal(n) + " bytes at "@ + text::decimal(
            pos,
        ) + " with only "@ + text::decimal(left) + " remaining"@,
        io::seek_beyond(pos, len) == "seek "@ + text::decimal(pos) + " beyond "@ + text::decimal(
            len,
        ),
{
    reveal(io::short_read);
    reveal(io::seek_beyond);
}

/// What is said of a body whose header cannot be read.
pub proof fn body_headers_are_told(data: Seq<u8>)
    ensures
        data.len() == 0 ==> body::header_failure(data) == "empty method body"@,
        data.len() > 0 && data[0] % 4 == 3 ==> body::header_failure(data)
            == "truncated fat method body header"@,
        data.len() > 0 && data[0] % 4 < 2 ==> body::header_failure(data)
            == "invalid method header format bits 0x"@ + text::lower_hex((data[0] % 4) as nat),
{
}

/// What is said of an opcode that is not there, or is none.
pub proof fn opcodes_are_told(s: Seq<u8>, at: int)
    requires
        0 <= at < s.len(),
    ensures
        s[at] != 0xFE ==> body::opcode_failure(s, at) == "unknown single-byte opcode 0x"@
            + text::lower_hex_padded(s[at] as nat, 2),
        s[at] == 0xFE && at + 1 < s.len() ==> body::opcode_failure(s, at)
            == "unknown two-byte opcode fe 0x"@ + text::lower_hex_padded(s[at + 1] as nat, 2),
        s[at] == 0xFE && at + 1 == s.len() ==> body::opcode_failure(s, at) == io::short_read(
            1,
            s.len(),
            s.len(),
        ),
{
}

/// What is said of an operand that its opcode does not take, or that is too far
/// or too large for it.
pub proof fn operands_are_told(operand: OperandView, target: i32, index: u16)
    ensures
        body::operand_refusal(OperandView::Branch(target), OperandType::ShortInlineBrTarget)
            == "branch target out of sbyte range"@,
        body::operand_refusal(OperandView::Var(index), OperandType::ShortInlineVar)
            == "variable index does not fit one byte"@,
        body::operand_refusal(OperandView::Var(index), OperandType::ShortInlineArg)
            == "variable index does not fit one byte"@,
        ({
            let got = instruction::operand_value(operand, instruction::float_bits(operand));
            &&& body::operand_failure(operand, OperandType::ShortInlineI) == "expected "@
                + "an Int8"@ + ", got "@ + got
            &&& body::operand_failure(operand, OperandType::InlineI) == "expected "@ + "an Int32"@
                + ", got "@ + got
            &&& body::operand_failure(operand, OperandType::InlineI8) == "expected "@ + "an Int64"@
                + ", got "@ + got
            &&& body::operand_failure(operand, OperandType::ShortInlineR) == "expected "@
                + "a Float32"@ + ", got "@ + got
            &&& body::operand_failure(operand, OperandType::InlineR) == "expected "@ + "a Float64"@
                + ", got "@ + got
            &&& body::operand_failure(operand, OperandType::InlineVar) == "expected "@ + "a Var"@
                + ", got "@ + got
            &&& body::operand_failure(operand, OperandType::InlineString) == "expected "@
                + "a UserString"@ + ", got "@ + got
            &&& body::operand_failure(operand, OperandType::InlineMethod) == "expected "@
                + "a Token"@ + ", got "@ + got
            &&& body::operand_failure(operand, OperandType::InlineType) == "expected "@
                + "a Token"@ + ", got "@ + got
        }),
{
}

/// What is said of an index that leads to no text, no user string or no blob.
pub proof fn heap_indexes_are_told(data: Seq<u8>, index: u32, length: u32, width: int)
    ensures
        (forall|k: int| index <= k < data.len() ==> #[trigger] data[k] != 0)
            ==> heaps::string_failure(data, index) == "unterminated string at #Strings index "@
            + text::decimal(index as nat),
        (exists|k: int| index <= k < data.len() && #[trigger] data[k] == 0)
            ==> heaps::string_failure(data, index) == "invalid UTF-8 at #Strings index "@
            + text::decimal(index as nat),
        io::compressed_u32_at(data, index as int) == Some((length, width)) ==> heaps::blob_failure(
            data,
            index,
        ) == "blob length "@ + text::decimal(length as nat) + " overruns heap at #Blob index "@
            + text::decimal(index as nat),
{
    bytes::zero_from_found(data, index as int);
}

/// What is said of a cell that is not there: its table, its row or its column is
/// not.
pub proof fn cells_are_told(f: TableShape, table: TableIndex, rid: u32, col: nat)
    ensures
        !f.has(table.number() as int) ==> f.cell_failure(table, rid, col) == "table "@
            + table.label() + " is absent"@,
        f.has(table.number() as int) ==> {
            let count = f.counts[table.number() as int];
            &&& !(1 <= rid <= count) ==> f.cell_failure(table, rid, col) == "rid "@
                + text::decimal(rid as nat) + " out of range for table "@ + table.label() + " ("@
                + text::decimal(count as nat) + " rows)"@
            &&& 1 <= rid <= count ==> f.cell_failure(table, rid, col) == "column "@
                + text::decimal(col) + " out of range for table "@ + table.label()
        },
{
}

/// What is said of a file that is no image.
pub proof fn images_are_told(raw: Seq<u8>)
    ensures
        raw.len() < 128 ==> pe::reader::signature_failure(raw)
            == "file too small for a PE image: "@ + text::decimal(raw.len()) + " bytes"@,
        raw.len() >= 128 ==> {
            let at = encoding_laws::double_word(raw, 0x3C);
            let marked = at + 4 <= raw.len() && raw[at] == 0x50 && raw[at + 1] == 0x45 && raw[at
                + 2] == 0 && raw[at + 3] == 0;
            &&& !marked ==> pe::reader::signature_failure(raw) == "missing PE signature"@
            &&& marked ==> pe::reader::signature_failure(raw) == "missing MZ signature"@
        },
{
    encoding_laws::words_agree(raw);
    if raw.len() >= 128 {
        let at = encoding_laws::double_word(raw, 0x3C);
        assert(bytes::u32_at(raw, 0x3C) == at);
        if at + 4 <= raw.len() {
            assert(bytes::u32_at(raw, at) == encoding_laws::double_word(raw, at));
        }
    }
}

/// What is said of embedded debug information of another length, or of none.
pub proof fn embedded_lengths_are_told(declared: u32, found: Seq<u8>, cause: Seq<char>)
    ensures
        embedded::length_failure(declared, Ok(found))
            == "embedded pdb size mismatch: header says "@ + text::decimal(declared as nat)
            + ", inflated "@ + text::decimal(found.len()),
        embedded::length_failure(declared, Err(cause)) == "embedded pdb inflate failed: "@ + cause,
{
}

/// What is said of a table that does not lie in the file, or whose size is not
/// that of its rows.
pub proof fn table_extents_are_told(what: Seq<char>, base: i32, size: i32, count: i32, length: nat)
    ensures
        base < 0 || size < 0 ==> reader::table_failure(what, base, size, count, length)
            == "mdb: negative "@ + what + " table extent"@,
        base >= 0 && size >= 0 && base + size > length ==> reader::table_failure(
            what,
            base,
            size,
            count,
            length,
        ) == "mdb: "@ + what + " table ["@ + text::signed_decimal(base as int) + ","@
            + text::signed_decimal(base + size) + ") exceeds file size "@ + text::decimal(length),
        base >= 0 && size >= 0 && base + size <= length && count < 0 ==> reader::table_failure(
            what,
            base,
            size,
            count,
            length,
        ) == "mdb: negative "@ + what + " count "@ + text::signed_decimal(count as int),
        base >= 0 && size >= 0 && base + size <= length && count >= 0 ==> reader::table_failure(
            what,
            base,
            size,
            count,
            length,
        ) == "mdb: "@ + what + " table size "@ + text::signed_decimal(size as int)
            + " does not match count "@ + text::signed_decimal(count as int),
{
}

} // verus!
