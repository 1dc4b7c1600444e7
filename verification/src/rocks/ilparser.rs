//! IL body validation and walk utilities over resolved method bodies.
//!
//! * [`validate_body`] / [`validate_body_for`]: every instruction operand must
//!   have the shape its opcode demands, branch/switch targets must land inside
//!   the code, local-variable indices must exist, argument indices are checked
//!   against the caller-supplied parameter count, and exception-clause ranges
//!   must be sane;
//! * [`visit`]: the walk (index + instruction pairs);
//! * [`collect_branch_targets`] / [`find_by_offset`]: small query helpers.
//!
//! Validation failures are reported as [`Error::InvalidOperation`] with the
//! offending instruction index in the message; no panic ever occurs on
//! malformed input.

use vstd::prelude::*;

use crate::cil::instruction;
use crate::cil::instruction::{push_list, push_named_signed, push_named_unsigned};
use crate::cil::OperandType;
use crate::error::{Error, ErrorKind};
use crate::model::body::{
    ExceptionHandlerIL, ExceptionKind, RInstruction, ROperand, ResolvedBody,
};
use crate::text;
use crate::text::Message;

verus! {

/// How many targets a switch operand names.
pub open spec fn target_count(operand: ROperand) -> int {
    match operand {
        ROperand::Switch(targets) => targets@.len() as int,
        _ => 0,
    }
}

/// How many bytes an instruction takes.
pub open spec fn encoded_length(ins: RInstruction) -> int {
    ins.opcode.size + match ins.opcode.operand_type.width() {
        Some(n) => n as int,
        None => 4 + 4 * target_count(ins.operand),
    }
}

fn length_of(ins: &RInstruction) -> (n: i128)
    ensures
        n == encoded_length(*ins),
        0 <= n <= 0x4_0000_0000_0000_0000 + 263,
{
    let targets: i128 = match &ins.operand {
        ROperand::Switch(v) => v.len() as i128,
        _ => 0,
    };
    let operand: i128 = match ins.opcode.operand_type.size() {
        Some(n) => n as i128,
        None => 4 + 4 * targets,
    };
    ins.opcode.size as i128 + operand
}

/// Encoded size in bytes of one decoded instruction (opcode bytes plus
/// operand bytes): switch instructions carry 4 bytes of target count plus 4
/// bytes per target.
pub fn encoded_size(ins: &RInstruction) -> (n: i32)
    requires
        encoded_length(*ins) <= i32::MAX,
    ensures
        n == encoded_length(*ins),
{
    length_of(ins) as i32
}

/// Where an instruction ends.
pub open spec fn end_of(ins: RInstruction) -> int {
    ins.offset + encoded_length(ins)
}

/// Where the code ends: behind its last instruction.
pub open spec fn code_end(body: ResolvedBody) -> int {
    if body.instructions@.len() == 0 {
        0
    } else {
        end_of(body.instructions@.last())
    }
}

fn end_of_code(body: &ResolvedBody) -> (n: i128)
    ensures
        n == code_end(*body),
{
    let count: usize = body.instructions.len();
    if count == 0 {
        0
    } else {
        let last = &body.instructions[count - 1];
        last.offset as i128 + length_of(last)
    }
}

/// Total code size in bytes implied by the instruction list: end offset of
/// the last instruction (`0` for an empty body).
pub fn code_size(body: &ResolvedBody) -> (n: i32)
    requires
        i32::MIN <= code_end(*body) <= i32::MAX,
    ensures
        n == code_end(*body),
{
    end_of_code(body) as i32
}

/// The operand has the shape that an opcode of the operand type demands.
pub open spec fn operand_fits(t: OperandType, operand: ROperand) -> bool {
    match t {
        OperandType::InlineNone => operand is Empty,
        OperandType::ShortInlineBrTarget | OperandType::InlineBrTarget => operand is Branch,
        OperandType::ShortInlineI => operand is Int8,
        OperandType::InlineI => operand is Int32,
        OperandType::InlineI8 => operand is Int64,
        OperandType::ShortInlineR => operand is Float32,
        OperandType::InlineR => operand is Float64,
        OperandType::InlineSwitch => operand is Switch,
        OperandType::InlineString => operand is Text || operand is UserString,
        OperandType::ShortInlineVar
        | OperandType::InlineVar
        | OperandType::ShortInlineArg
        | OperandType::InlineArg => operand is Var,
        OperandType::InlineSig => operand is CallSite || operand is Token,
        OperandType::InlineType => operand is Type || operand is Token,
        OperandType::InlineMethod => operand is Method || operand is Token,
        OperandType::InlineField => operand is Field || operand is Token || operand is Rva,
        OperandType::InlineTok => operand is Type || operand is Method || operand is Field
            || operand is Token,
    }
}

/// True when `operand` has exactly the shape demanded by the operand type.
fn operand_matches(t: OperandType, operand: &ROperand) -> (b: bool)
    ensures
        b == operand_fits(t, *operand),
{
    match (t, operand) {
        (OperandType::InlineNone, ROperand::Empty) => true,
        (OperandType::ShortInlineBrTarget, ROperand::Branch(_)) => true,
        (OperandType::InlineBrTarget, ROperand::Branch(_)) => true,
        (OperandType::ShortInlineI, ROperand::Int8(_)) => true,
        (OperandType::InlineI, ROperand::Int32(_)) => true,
        (OperandType::InlineI8, ROperand::Int64(_)) => true,
        (OperandType::ShortInlineR, ROperand::Float32(_)) => true,
        (OperandType::InlineR, ROperand::Float64(_)) => true,
        (OperandType::InlineSwitch, ROperand::Switch(_)) => true,
        // Unresolved strings keep their raw offsets.
        (OperandType::InlineString, ROperand::Text(_)) => true,
        (OperandType::InlineString, ROperand::UserString(_)) => true,
        // Locals and arguments are both stored as bare indices.
        (OperandType::ShortInlineVar, ROperand::Var(_)) => true,
        (OperandType::InlineVar, ROperand::Var(_)) => true,
        (OperandType::ShortInlineArg, ROperand::Var(_)) => true,
        (OperandType::InlineArg, ROperand::Var(_)) => true,
        // calli: typed signature, or the raw token.
        (OperandType::InlineSig, ROperand::CallSite(_)) => true,
        (OperandType::InlineSig, ROperand::Token(_)) => true,
        (OperandType::InlineType, ROperand::Type(_)) => true,
        (OperandType::InlineType, ROperand::Token(_)) => true,
        (OperandType::InlineMethod, ROperand::Method(_)) => true,
        (OperandType::InlineMethod, ROperand::Token(_)) => true,
        (OperandType::InlineField, ROperand::Field(_)) => true,
        (OperandType::InlineField, ROperand::Token(_)) => true,
        // Field forms may keep the raw address.
        (OperandType::InlineField, ROperand::Rva(_)) => true,
        (OperandType::InlineTok, ROperand::Type(_)) => true,
        (OperandType::InlineTok, ROperand::Method(_)) => true,
        (OperandType::InlineTok, ROperand::Field(_)) => true,
        (OperandType::InlineTok, ROperand::Token(_)) => true,
        _ => false,
    }
}

/// What is wrong with an instruction.
pub enum Fault {
    /// It starts before the one in front of it ends.
    Overlap,
    /// Its operand has not the shape that its opcode demands.
    Shape,
    /// It branches to this offset outside the code.
    Branch(i32),
    /// One of its targets is this offset outside the code.
    Switch(i32),
    /// It names this argument, which does not exist.
    Argument(u16),
    /// It names this local variable, which does not exist.
    Variable(u16),
}

/// Where the instruction may start at the earliest.
pub open spec fn earliest(body: ResolvedBody, k: int) -> int {
    if k <= 0 {
        0
    } else {
        end_of(body.instructions@[k - 1])
    }
}

/// The first of the targets, from the `i`-th one on, that lies outside of
/// `0..=end`.
pub open spec fn first_outside(targets: Seq<i32>, end: int, i: int) -> Option<i32>
    decreases targets.len() - i,
{
    if i < 0 || i >= targets.len() {
        None
    } else if targets[i] < 0 || targets[i] > end {
        Some(targets[i])
    } else {
        first_outside(targets, end, i + 1)
    }
}

/// The opcode takes the index of an argument.
pub open spec fn takes_argument(t: OperandType) -> bool {
    t == OperandType::ShortInlineArg || t == OperandType::InlineArg
}

/// What is wrong with what the operand refers to.
pub open spec fn reference_fault(
    body: ResolvedBody,
    ins: RInstruction,
    param_count: usize,
) -> Option<Fault> {
    match ins.operand {
        ROperand::Branch(target) => if target < 0 || target > code_end(body) {
            Some(Fault::Branch(target))
        } else {
            None
        },
        ROperand::Switch(targets) => match first_outside(targets@, code_end(body), 0) {
            Some(target) => Some(Fault::Switch(target)),
            None => None,
        },
        ROperand::Var(index) => if takes_argument(ins.opcode.operand_type) {
            if index >= param_count {
                Some(Fault::Argument(index))
            } else {
                None
            }
        } else if index >= body.locals@.len() {
            Some(Fault::Variable(index))
        } else {
            None
        },
        _ => None,
    }
}

/// What is wrong with the `k`-th instruction of a body, if anything.
pub open spec fn fault_at(body: ResolvedBody, k: int, param_count: usize) -> Option<Fault> {
    let ins = body.instructions@[k];
    if ins.offset < earliest(body, k) {
        Some(Fault::Overlap)
    } else if !operand_fits(ins.opcode.operand_type, ins.operand) {
        Some(Fault::Shape)
    } else {
        reference_fault(body, ins, param_count)
    }
}

/// A range lies inside the code.
pub open spec fn range_fits(offset: i32, length: i32, end: int) -> bool {
    offset >= 0 && length >= 0 && offset + length <= end
}

/// The ranges of an exception clause lie inside the code, and so does the
/// filter of a filter clause.
pub open spec fn clause_fits(clause: ExceptionHandlerIL, end: int) -> bool {
    &&& range_fits(clause.try_offset, clause.try_length, end)
    &&& clause.kind == ExceptionKind::Filter ==> 0 <= clause.filter_offset <= end
    &&& range_fits(clause.handler_offset, clause.handler_length, end)
}

/// No instruction of the body has a fault.
pub open spec fn sound_code(body: ResolvedBody, param_count: usize) -> bool {
    forall|k: int|
        0 <= k < body.instructions@.len() ==> (#[trigger] fault_at(body, k, param_count)) is None
}

/// No instruction has a fault, and the exception clauses stay inside the code.
pub open spec fn valid_body(body: ResolvedBody, param_count: usize) -> bool {
    &&& sound_code(body, param_count)
    &&& forall|k: int|
        0 <= k < body.exception_handlers@.len() ==> clause_fits(
            #[trigger] body.exception_handlers@[k],
            code_end(body),
        )
}

/// The operand as its kind and its value. A floating-point number stands as its
/// bits, and a type or a signature is not spelled out.
pub open spec fn operand_value(operand: ROperand) -> Seq<char> {
    match operand {
        ROperand::Empty => "None"@,
        ROperand::Int8(v) => instruction::named_number("Int8("@, v as int),
        ROperand::Int32(v) => instruction::named_number("Int32("@, v as int),
        ROperand::Int64(v) => instruction::named_number("Int64("@, v as int),
        ROperand::Float32(v) => instruction::named_number("Float32("@, v as int),
        ROperand::Float64(v) => instruction::named_number("Float64("@, v as int),
        ROperand::Branch(target) => instruction::named_number("Branch("@, target as int),
        ROperand::Switch(targets) => "Switch(["@ + instruction::listed_numbers(targets@, targets@.len())
            + "])"@,
        ROperand::Text(t) => "String("@ + text::quoted(t@) + ")"@,
        ROperand::UserString(i) => instruction::named_number("UserString("@, i as int),
        ROperand::Var(v) => instruction::named_number("Var("@, v as int),
        ROperand::Token(t) => instruction::named_number("Token(Token("@, t.0 as int) + ")"@,
        ROperand::Type(_) => "Type(..)"@,
        ROperand::Method(id) => instruction::named_number("Method(MethodId("@, id.0 as int) + ")"@,
        ROperand::Field(id) => instruction::named_number("Field(FieldId("@, id.0 as int) + ")"@,
        ROperand::CallSite(_) => "CallSite(..)"@,
        ROperand::Rva(v) => instruction::named_number("Rva("@, v as int),
    }
}

fn push_operand_value(s: &mut String, operand: &ROperand)
    ensures
        final(s)@ == old(s)@ + operand_value(*operand),
{
    match operand {
        ROperand::Empty => text::push_text(s, "None"),
        ROperand::Int8(v) => push_named_signed(s, "Int8(", *v as i64),
        ROperand::Int32(v) => push_named_signed(s, "Int32(", *v as i64),
        ROperand::Int64(v) => push_named_signed(s, "Int64(", *v),
        ROperand::Float32(v) => push_named_unsigned(s, "Float32(", *v as u64),
        ROperand::Float64(v) => push_named_unsigned(s, "Float64(", *v),
        ROperand::Branch(target) => push_named_signed(s, "Branch(", *target as i64),
        ROperand::Switch(targets) => {
            text::push_text(s, "Switch([");
            push_list(s, targets);
            text::push_text(s, "])");
        },
        ROperand::Text(t) => {
            let q: String = text::quote(t.as_str());
            text::push_text(s, "String(");
            text::push_text(s, q.as_str());
            text::push_text(s, ")");
        },
        ROperand::UserString(i) => push_named_unsigned(s, "UserString(", *i as u64),
        ROperand::Var(v) => push_named_unsigned(s, "Var(", *v as u64),
        ROperand::Token(t) => {
            push_named_unsigned(s, "Token(Token(", t.0 as u64);
            text::push_text(s, ")");
        },
        ROperand::Type(_) => text::push_text(s, "Type(..)"),
        ROperand::Method(id) => {
            push_named_unsigned(s, "Method(MethodId(", id.0 as u64);
            text::push_text(s, ")");
        },
        ROperand::Field(id) => {
            push_named_unsigned(s, "Field(FieldId(", id.0 as u64);
            text::push_text(s, ")");
        },
        ROperand::CallSite(_) => text::push_text(s, "CallSite(..)"),
        ROperand::Rva(v) => push_named_unsigned(s, "Rva(", *v),
    }
    proof {
        assert(s@ =~= old(s)@ + operand_value(*operand));
    }
}

/// What is said of a range that is not inside the code.
pub open spec fn range_phrase(what: Seq<char>, offset: i32, length: i32, end: int) -> Seq<char> {
    "exception handler "@ + what + " range ["@ + text::signed_decimal(offset as int) + ", "@
        + text::signed_decimal(offset + length) + ") escapes code [0, "@ + text::signed_decimal(end)
        + "]"@
}

/// What is said of a clause that does not fit.
pub open spec fn clause_text(clause: ExceptionHandlerIL, end: int) -> Seq<char> {
    if !range_fits(clause.try_offset, clause.try_length, end) {
        range_phrase("try"@, clause.try_offset, clause.try_length, end)
    } else if clause.kind == ExceptionKind::Filter && !(0 <= clause.filter_offset <= end) {
        "filter offset "@ + text::signed_decimal(clause.filter_offset as int) + " outside [0, "@
            + text::signed_decimal(end) + "]"@
    } else {
        range_phrase("handler"@, clause.handler_offset, clause.handler_length, end)
    }
}

/// What is said of a fault.
pub open spec fn fault_phrase(body: ResolvedBody, k: int, param_count: usize, fault: Fault) -> Seq<
    char,
> {
    let ins = body.instructions@[k];
    let bounds = " outside [0, "@ + text::signed_decimal(code_end(body)) + "]"@;
    match fault {
        Fault::Overlap => "offset "@ + text::signed_decimal(ins.offset as int)
            + " overlaps or precedes previous instruction (expected >= "@ + text::signed_decimal(
            earliest(body, k),
        ) + ")"@,
        Fault::Shape => "opcode `"@ + ins.opcode.name@ + "` ("@ + ins.opcode.operand_type.label()
            + ") carries incompatible operand "@ + operand_value(ins.operand),
        Fault::Branch(target) => "branch target "@ + text::signed_decimal(target as int) + bounds,
        Fault::Switch(target) => "switch target "@ + text::signed_decimal(target as int) + bounds,
        Fault::Argument(index) => "argument index "@ + text::decimal(index as nat)
            + " out of range ("@ + text::decimal(param_count as nat) + " parameter slots)"@,
        Fault::Variable(index) => "variable index "@ + text::decimal(index as nat)
            + " out of range ("@ + text::decimal(body.locals@.len()) + " locals)"@,
    }
}

/// The message about a fault: it names the instruction.
pub open spec fn fault_text(body: ResolvedBody, k: int, param_count: usize, fault: Fault) -> Seq<
    char,
> {
    "instruction #"@ + text::decimal(k as nat) + ": "@ + fault_phrase(body, k, param_count, fault)
}

fn push_bounds(s: &mut String, end: i128)
    requires
        end > i128::MIN,
    ensures
        final(s)@ == old(s)@ + (" outside [0, "@ + text::signed_decimal(end as int) + "]"@),
{
    text::push_text(s, " outside [0, ");
    text::push_signed(s, end);
    text::push_text(s, "]");
    proof {
        assert(s@ =~= old(s)@ + (" outside [0, "@ + text::signed_decimal(end as int) + "]"@));
    }
}

fn push_fault(
    s: &mut String,
    body: &ResolvedBody,
    k: usize,
    param_count: usize,
    fault: &Fault,
    start: i128,
    end: i128,
)
    requires
        k < body.instructions@.len(),
        start == earliest(*body, k as int),
        end == code_end(*body),
        start > i128::MIN,
        end > i128::MIN,
    ensures
        final(s)@ == old(s)@ + fault_phrase(*body, k as int, param_count, *fault),
{
    let ins = &body.instructions[k];
    let ghost bounds = " outside [0, "@ + text::signed_decimal(code_end(*body)) + "]"@;
    match fault {
        Fault::Overlap => {
            text::push_text(s, "offset ");
            text::push_signed(s, ins.offset as i128);
            text::push_text(s, " overlaps or precedes previous instruction (expected >= ");
            text::push_signed(s, start);
            text::push_text(s, ")");
        },
        Fault::Shape => {
            text::push_text(s, "opcode `");
            text::push_text(s, ins.opcode.name);
            text::push_text(s, "` (");
            text::push_text(s, ins.opcode.operand_type.name());
            text::push_text(s, ") carries incompatible operand ");
            push_operand_value(s, &ins.operand);
        },
        Fault::Branch(target) => {
            text::push_text(s, "branch target ");
            text::push_signed(s, *target as i128);
            push_bounds(s, end);
        },
        Fault::Switch(target) => {
            text::push_text(s, "switch target ");
            text::push_signed(s, *target as i128);
            push_bounds(s, end);
        },
        Fault::Argument(index) => {
            text::push_text(s, "argument index ");
            text::push_decimal(s, *index as u64);
            text::push_text(s, " out of range (");
            text::push_decimal(s, param_count as u64);
            text::push_text(s, " parameter slots)");
        },
        Fault::Variable(index) => {
            text::push_text(s, "variable index ");
            text::push_decimal(s, *index as u64);
            text::push_text(s, " out of range (");
            text::push_decimal(s, body.locals.len() as u64);
            text::push_text(s, " locals)");
        },
    }
    proof {
        assert(s@ =~= old(s)@ + fault_phrase(*body, k as int, param_count, *fault));
    }
}

fn outside(targets: &Vec<i32>, end: i128) -> (r: Option<i32>)
    ensures
        r == first_outside(targets@, end as int, 0),
{
    let n: usize = targets.len();
    let mut i: usize = 0;
    while i < n
        invariant
            i <= n,
            n == targets@.len(),
            first_outside(targets@, end as int, 0) == first_outside(
                targets@,
                end as int,
                i as int,
            ),
        decreases n - i,
    {
        if targets[i] < 0 || targets[i] as i128 > end {
            return Some(targets[i]);
        }
        i += 1;
    }
    None
}

fn find_fault(
    body: &ResolvedBody,
    k: usize,
    param_count: usize,
    start: i128,
    end: i128,
) -> (r: Option<Fault>)
    requires
        k < body.instructions@.len(),
        start == earliest(*body, k as int),
        end == code_end(*body),
    ensures
        r == fault_at(*body, k as int, param_count),
{
    let ins = &body.instructions[k];
    if (ins.offset as i128) < start {
        return Some(Fault::Overlap);
    }
    let kind = ins.opcode.operand_type;
    if !operand_matches(kind, &ins.operand) {
        return Some(Fault::Shape);
    }
    match &ins.operand {
        ROperand::Branch(target) => if *target < 0 || *target as i128 > end {
            Some(Fault::Branch(*target))
        } else {
            None
        },
        ROperand::Switch(targets) => match outside(targets, end) {
            Some(target) => Some(Fault::Switch(target)),
            None => None,
        },
        // The opcode's operand kind decides which table the index names.
        ROperand::Var(index) => if kind == OperandType::ShortInlineArg || kind
            == OperandType::InlineArg {
            if *index as usize >= param_count {
                Some(Fault::Argument(*index))
            } else {
                None
            }
        } else if *index as usize >= body.locals.len() {
            Some(Fault::Variable(*index))
        } else {
            None
        },
        _ => None,
    }
}

fn range_inside(offset: i32, length: i32, end: i128) -> (b: bool)
    ensures
        b == range_fits(offset, length, end as int),
{
    offset >= 0 && length >= 0 && offset as i128 + length as i128 <= end
}

fn range_error(what: &str, offset: i32, length: i32, end: i128) -> (e: Error)
    requires
        end > i128::MIN,
    ensures
        e.kind() == ErrorKind::InvalidOperation,
        e.text() == range_phrase(what@, offset, length, end as int),
{
    Error::invalid_op(
        Message::new("exception handler ").text(what).text(" range [").number(
            offset as i64,
        ).text(", ").number(offset as i64 + length as i64).text(") escapes code [0, ").wide_number(
            end,
        ).text("]").as_str(),
    )
}

fn validate_clause(clause: &ExceptionHandlerIL, end: i128) -> (r: Result<(), Error>)
    requires
        end > i128::MIN,
    ensures
        r is Ok <==> clause_fits(*clause, end as int),
        r is Err ==> r->Err_0.kind() == ErrorKind::InvalidOperation && r->Err_0.text()
            == clause_text(*clause, end as int),
{
    if !range_inside(clause.try_offset, clause.try_length, end) {
        return Err(range_error("try", clause.try_offset, clause.try_length, end));
    }
    if clause.kind == ExceptionKind::Filter && (clause.filter_offset < 0
        || clause.filter_offset as i128 > end) {
        return Err(
            Error::invalid_op(
                Message::new("filter offset ").number(clause.filter_offset as i64).text(
                    " outside [0, ",
                ).wide_number(end).text("]").as_str(),
            ),
        );
    }
    if !range_inside(clause.handler_offset, clause.handler_length, end) {
        return Err(range_error("handler", clause.handler_offset, clause.handler_length, end));
    }
    Ok(())
}

/// Validates a resolved body without argument-index checking.
///
/// * every operand kind agrees with the opcode's operand type;
/// * instruction offsets are non-decreasing and never overlap;
/// * branch and switch targets lie within `[0, code_size]`;
/// * local variable indices (`ldloc*`/`stloc*`) are `< locals.len()`;
/// * exception-handler try/handler ranges stay inside the code with
///   non-negative lengths, and filter offsets point into the code.
///
/// Argument-carrying opcodes (`ldarg`, `ldarg.s`, `starg.s`, `ldarga.s`)
/// cannot be range-checked here: a resolved body does not know its method's
/// parameter count. This wrapper therefore delegates to
/// [`validate_body_for`] with a `usize::MAX` parameter count, which lets any
/// well-shaped argument index pass while still rejecting malformed operands.
/// Callers that know the declaring method should prefer
/// [`validate_body_for`].
pub fn validate_body(body: &ResolvedBody) -> (r: Result<(), Error>)
    ensures
        r is Ok <==> valid_body(*body, usize::MAX),
        r is Err ==> r->Err_0.kind() == ErrorKind::InvalidOperation,
        forall|k: int|
            0 <= k < body.instructions@.len() && (#[trigger] fault_at(
                *body,
                k,
                usize::MAX,
            )) is Some && (forall|j: int|
                0 <= j < k ==> (#[trigger] fault_at(*body, j, usize::MAX)) is None)
                ==> r->Err_0.text() == fault_text(
                *body,
                k,
                usize::MAX,
                fault_at(*body, k, usize::MAX)->Some_0,
            ),
        sound_code(*body, usize::MAX) ==> forall|k: int|
            0 <= k < body.exception_handlers@.len() && !clause_fits(
                #[trigger] body.exception_handlers@[k],
                code_end(*body),
            ) && (forall|j: int|
                0 <= j < k ==> clause_fits(#[trigger] body.exception_handlers@[j], code_end(*body)))
                ==> r->Err_0.text() == clause_text(body.exception_handlers@[k], code_end(*body)),
{
    validate_body_for(body, usize::MAX)
}

/// Validates a resolved body with full argument checking.
///
/// Same rules as [`validate_body`], plus:
///
/// * argument indices (`ShortInlineArg`/`InlineArg` opcodes) are
///   `< param_count`.
///
/// `param_count` is the caller-supplied slot count for argument operands;
/// for an instance method the implicit `this` occupies slot 0, so callers
/// should pass `1 + parameters.len()` there.
/// The `Ldarg_0..Ldarg_3` macro opcodes carry no operand
/// (`OperandType::InlineNone`) and are covered by the shape check only.
pub fn validate_body_for(body: &ResolvedBody, param_count: usize) -> (r: Result<(), Error>)
    ensures
        r is Ok <==> valid_body(*body, param_count),
        r is Err ==> r->Err_0.kind() == ErrorKind::InvalidOperation,
        forall|k: int|
            0 <= k < body.instructions@.len() && (#[trigger] fault_at(
                *body,
                k,
                param_count,
            )) is Some && (forall|j: int|
                0 <= j < k ==> (#[trigger] fault_at(*body, j, param_count)) is None)
                ==> r->Err_0.text() == fault_text(
                *body,
                k,
                param_count,
                fault_at(*body, k, param_count)->Some_0,
            ),
        sound_code(*body, param_count) ==> forall|k: int|
            0 <= k < body.exception_handlers@.len() && !clause_fits(
                #[trigger] body.exception_handlers@[k],
                code_end(*body),
            ) && (forall|j: int|
                0 <= j < k ==> clause_fits(#[trigger] body.exception_handlers@[j], code_end(*body)))
                ==> r->Err_0.text() == clause_text(body.exception_handlers@[k], code_end(*body)),
{
    let end: i128 = end_of_code(body);
    let n: usize = body.instructions.len();
    let mut start: i128 = 0;
    let mut i: usize = 0;
    while i < n
        invariant
            i <= n,
            n == body.instructions@.len(),
            end == code_end(*body),
            end > i128::MIN,
            start > i128::MIN,
            start == earliest(*body, i as int),
            forall|k: int| 0 <= k < i ==> (#[trigger] fault_at(*body, k, param_count)) is None,
        decreases n - i,
    {
        match find_fault(body, i, param_count, start, end) {
            Some(fault) => {
                let mut message: String = String::new();
                text::push_text(&mut message, "instruction #");
                text::push_decimal(&mut message, i as u64);
                text::push_text(&mut message, ": ");
                push_fault(&mut message, body, i, param_count, &fault, start, end);
                proof {
                    assert(message@ =~= fault_text(*body, i as int, param_count, fault));
                }
                return Err(Error::InvalidOperation(message));
            },
            None => {},
        }
        start = body.instructions[i].offset as i128 + length_of(&body.instructions[i]);
        i += 1;
    }
    let count: usize = body.exception_handlers.len();
    let mut c: usize = 0;
    while c < count
        invariant
            c <= count,
            count == body.exception_handlers@.len(),
            end == code_end(*body),
            end > i128::MIN,
            sound_code(*body, param_count),
            forall|k: int|
                0 <= k < c ==> clause_fits(
                    #[trigger] body.exception_handlers@[k],
                    code_end(*body),
                ),
        decreases count - c,
    {
        validate_clause(&body.exception_handlers[c], end)?;
        c += 1;
    }
    Ok(())
}

/// Walks every instruction in order and hands each out with its index.
pub fn visit(body: &ResolvedBody) -> (v: Vec<(usize, &RInstruction)>)
    ensures
        v@.len() == body.instructions@.len(),
        forall|k: int|
            0 <= k < v@.len() ==> (#[trigger] v@[k]).0 == k && *v@[k].1 == body.instructions@[k],
{
    let n: usize = body.instructions.len();
    let mut v: Vec<(usize, &RInstruction)> = Vec::new();
    let mut i: usize = 0;
    while i < n
        invariant
            i <= n,
            n == body.instructions@.len(),
            v@.len() == i,
            forall|k: int|
                0 <= k < v@.len() ==> (#[trigger] v@[k]).0 == k && *v@[k].1
                    == body.instructions@[k],
        decreases n - i,
    {
        v.push((i, &body.instructions[i]));
        i += 1;
    }
    v
}

/// The instruction goes to the offset.
pub open spec fn goes_to(ins: RInstruction, target: i32) -> bool {
    match ins.operand {
        ROperand::Branch(t) => t == target,
        ROperand::Switch(ts) => ts@.contains(target),
        _ => false,
    }
}

/// One of the first `n` instructions of the body goes to the offset.
pub open spec fn reached(body: ResolvedBody, target: i32, n: int) -> bool {
    exists|k: int|
        0 <= k < n && k < body.instructions@.len() && goes_to(
            #[trigger] body.instructions@[k],
            target,
        )
}

/// The numbers go up.
pub open spec fn ascending(v: Seq<i32>) -> bool {
    forall|i: int, j: int| 0 <= i < j < v.len() ==> v[i] < v[j]
}

fn insert_sorted(v: &mut Vec<i32>, x: i32)
    requires
        ascending(old(v)@),
    ensures
        ascending(final(v)@),
        forall|t: i32| #[trigger] final(v)@.contains(t) <==> old(v)@.contains(t) || t == x,
{
    let ghost before = v@;
    let n: usize = v.len();
    let mut i: usize = 0;
    while i < n && v[i] < x
        invariant
            i <= n,
            n == v@.len(),
            v@ == before,
            forall|k: int| 0 <= k < i ==> before[k] < x,
        decreases n - i,
    {
        i += 1;
    }
    if i < n && v[i] == x {
        proof {
            assert(before[i as int] == x);
        }
        return;
    }
    v.insert(i, x);
    proof {
        assert forall|t: i32| #[trigger] v@.contains(t) <==> before.contains(t) || t == x by {
            if before.contains(t) {
                let k = choose|k: int| 0 <= k < before.len() && before[k] == t;
                if k < i {
                    assert(v@[k] == t);
                } else {
                    assert(v@[k + 1] == t);
                }
            }
            if t == x {
                assert(v@[i as int] == x);
            }
            if v@.contains(t) {
                let k = choose|k: int| 0 <= k < v@.len() && v@[k] == t;
                if k < i {
                    assert(before[k] == t);
                } else if k > i {
                    assert(before[k - 1] == t);
                }
            }
        }
    }
}

fn insert_all(v: &mut Vec<i32>, targets: &Vec<i32>)
    requires
        ascending(old(v)@),
    ensures
        ascending(final(v)@),
        forall|t: i32| #[trigger]
            final(v)@.contains(t) <==> old(v)@.contains(t) || targets@.contains(t),
{
    let ghost before = v@;
    let n: usize = targets.len();
    let mut i: usize = 0;
    while i < n
        invariant
            i <= n,
            n == targets@.len(),
            ascending(v@),
            forall|t: i32| #[trigger]
                v@.contains(t) <==> before.contains(t) || targets@.take(i as int).contains(t),
        decreases n - i,
    {
        insert_sorted(v, targets[i]);
        proof {
            let old_part = targets@.take(i as int);
            let new_part = targets@.take(i + 1);
            assert(new_part =~= old_part.push(targets@[i as int]));
            assert forall|t: i32| new_part.contains(t) <==> old_part.contains(t) || t
                == targets@[i as int] by {
                if old_part.contains(t) {
                    let k = choose|k: int| 0 <= k < old_part.len() && old_part[k] == t;
                    assert(new_part[k] == t);
                }
                assert(new_part[i as int] == targets@[i as int]);
            }
        }
        i += 1;
    }
    proof {
        assert(targets@.take(n as int) =~= targets@);
    }
}

/// Collects every branch destination referenced by the body: absolute
/// `br`/`br.s`/leave-style targets plus all switch arms, sorted ascending
/// with duplicates removed.
pub fn collect_branch_targets(body: &ResolvedBody) -> (v: Vec<i32>)
    ensures
        ascending(v@),
        forall|t: i32| #[trigger]
            v@.contains(t) <==> reached(*body, t, body.instructions@.len() as int),
{
    let n: usize = body.instructions.len();
    let mut v: Vec<i32> = Vec::new();
    let mut i: usize = 0;
    while i < n
        invariant
            i <= n,
            n == body.instructions@.len(),
            ascending(v@),
            forall|t: i32| #[trigger] v@.contains(t) <==> reached(*body, t, i as int),
        decreases n - i,
    {
        let ghost before = v@;
        match &body.instructions[i].operand {
            ROperand::Branch(t) => {
                insert_sorted(&mut v, *t);
            },
            ROperand::Switch(ts) => {
                insert_all(&mut v, ts);
            },
            _ => {},
        }
        proof {
            assert forall|t: i32| #[trigger] v@.contains(t) <==> reached(*body, t, i + 1) by {
                assert(v@.contains(t) <==> before.contains(t) || goes_to(
                    body.instructions@[i as int],
                    t,
                ));
                if reached(*body, t, i + 1) {
                    let k = choose|k: int|
                        0 <= k < i + 1 && k < body.instructions@.len() && goes_to(
                            #[trigger] body.instructions@[k],
                            t,
                        );
                    if k < i {
                        assert(reached(*body, t, i as int));
                    }
                }
            }
        }
        i += 1;
    }
    v
}

/// The instructions are in the order of their offsets, no two at one offset.
pub open spec fn in_order(body: ResolvedBody) -> bool {
    forall|i: int, j: int|
        0 <= i < j < body.instructions@.len() ==> body.instructions@[i].offset
            < body.instructions@[j].offset
}

/// Returns the index of the instruction starting exactly at `offset`
/// (binary search; bodies keep instructions ordered by offset).
pub fn find_by_offset(body: &ResolvedBody, offset: i32) -> (r: Option<usize>)
    ensures
        match r {
            Some(k) => k < body.instructions@.len() && body.instructions@[k as int].offset
                == offset,
            None => in_order(*body) ==> forall|k: int|
                0 <= k < body.instructions@.len() ==> (#[trigger] body.instructions@[k]).offset
                    != offset,
        },
{
    let mut low: usize = 0;
    let mut high: usize = body.instructions.len();
    while low < high
        invariant
            low <= high <= body.instructions@.len(),
            in_order(*body) ==> forall|k: int|
                0 <= k < body.instructions@.len() && !(low <= k < high) ==> (
                #[trigger] body.instructions@[k]).offset != offset,
        decreases high - low,
    {
        let middle: usize = low + (high - low) / 2;
        let found: i32 = body.instructions[middle].offset;
        if found == offset {
            return Some(middle);
        }
        if found < offset {
            low = middle + 1;
        } else {
            high = middle;
        }
    }
    None
}

/// The instructions of a valid body are in the order of their offsets.
pub proof fn valid_code_is_in_order(body: ResolvedBody, param_count: usize)
    requires
        sound_code(body, param_count),
        forall|k: int|
            0 <= k < body.instructions@.len() ==> (#[trigger] body.instructions@[k]).opcode.size
                > 0,
    ensures
        in_order(body),
{
    assert forall|i: int, j: int| 0 <= i < j < body.instructions@.len() implies
        body.instructions@[i].offset < body.instructions@[j].offset by {
        offsets_ascend(body, param_count, i, j);
    }
}

proof fn offsets_ascend(body: ResolvedBody, param_count: usize, i: int, j: int)
    requires
        sound_code(body, param_count),
        0 <= i < j < body.instructions@.len(),
        forall|k: int|
            0 <= k < body.instructions@.len() ==> (#[trigger] body.instructions@[k]).opcode.size
                > 0,
    ensures
        body.instructions@[i].offset < body.instructions@[j].offset,
    decreases j - i,
{
    assert(fault_at(body, j, param_count) is None);
    let front = body.instructions@[j - 1];
    assert(encoded_length(front) > 0);
    if i < j - 1 {
        offsets_ascend(body, param_count, i, j - 1);
    }
}

/// What is valid for some number of parameters is valid for more.
pub proof fn more_parameters_stay_valid(body: ResolvedBody, few: usize, many: usize)
    requires
        few <= many,
        valid_body(body, few),
    ensures
        valid_body(body, many),
{
    assert forall|k: int| 0 <= k < body.instructions@.len() implies (#[trigger] fault_at(
        body,
        k,
        many,
    )) is None by {
        assert(fault_at(body, k, few) is None);
    }
}

} // verus!
