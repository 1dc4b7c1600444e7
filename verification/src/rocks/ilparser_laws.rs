//! Which method bodies are valid, told from the operands, the offsets and the
//! ranges that stand in them.

use vstd::prelude::*;

use crate::cil::code::Code;
use crate::cil::opcodes;
use crate::cil::OperandType;
use crate::model::body::{ExceptionKind, RInstruction, ROperand, ResolvedBody};
use crate::model::types::{FieldId, MethodId, MethodSignature, TypeDesc};
use crate::rocks::ilparser;
use crate::rocks::ilparser::Fault;
use crate::text;
use crate::token::Token;

verus! {

/// The operand types of the opcodes that take the operand.
pub open spec fn takers(operand: ROperand) -> Seq<OperandType> {
    match operand {
        ROperand::Empty => seq![OperandType::InlineNone],
        ROperand::Int8(_) => seq![OperandType::ShortInlineI],
        ROperand::Int32(_) => seq![OperandType::InlineI],
        ROperand::Int64(_) => seq![OperandType::InlineI8],
        ROperand::Float32(_) => seq![OperandType::ShortInlineR],
        ROperand::Float64(_) => seq![OperandType::InlineR],
        ROperand::Branch(_) => seq![OperandType::InlineBrTarget, OperandType::ShortInlineBrTarget],
        ROperand::Switch(_) => seq![OperandType::InlineSwitch],
        ROperand::Text(_) => seq![OperandType::InlineString],
        ROperand::UserString(_) => seq![OperandType::InlineString],
        ROperand::Var(_) => seq![
            OperandType::InlineArg,
            OperandType::InlineVar,
            OperandType::ShortInlineArg,
            OperandType::ShortInlineVar,
        ],
        ROperand::Token(_) => seq![
            OperandType::InlineField,
            OperandType::InlineMethod,
            OperandType::InlineSig,
            OperandType::InlineTok,
            OperandType::InlineType,
        ],
        ROperand::Type(_) => seq![OperandType::InlineTok, OperandType::InlineType],
        ROperand::Method(_) => seq![OperandType::InlineMethod, OperandType::InlineTok],
        ROperand::Field(_) => seq![OperandType::InlineField, OperandType::InlineTok],
        ROperand::CallSite(_) => seq![OperandType::InlineSig],
        ROperand::Rva(_) => seq![OperandType::InlineField],
    }
}

/// An opcode takes an operand exactly if its operand type is one of those that
/// the operand is for.
pub proof fn operands_fit_their_takers(t: OperandType, operand: ROperand)
    ensures
        ilparser::operand_fits(t, operand) <==> takers(operand).contains(t),
{
    let list = takers(operand);
    let w = list.index_of(t);
    if ilparser::operand_fits(t, operand) {
        assert(list[0] == t || list[1] == t || list[2] == t || list[3] == t || list[4] == t);
    }
}

/// References are taken both resolved and as tokens.
pub proof fn references_fit(
    method: MethodId,
    field: FieldId,
    ty: TypeDesc,
    site: MethodSignature,
    token: Token,
    rva: u64,
)
    ensures
        ilparser::operand_fits(OperandType::InlineMethod, ROperand::Method(method)),
        ilparser::operand_fits(OperandType::InlineField, ROperand::Field(field)),
        ilparser::operand_fits(OperandType::InlineField, ROperand::Rva(rva)),
        ilparser::operand_fits(OperandType::InlineType, ROperand::Type(ty)),
        ilparser::operand_fits(OperandType::InlineSig, ROperand::CallSite(site)),
        ilparser::operand_fits(OperandType::InlineTok, ROperand::Type(ty)),
        ilparser::operand_fits(OperandType::InlineTok, ROperand::Method(method)),
        ilparser::operand_fits(OperandType::InlineTok, ROperand::Field(field)),
        ilparser::operand_fits(OperandType::InlineMethod, ROperand::Token(token)),
        ilparser::operand_fits(OperandType::InlineField, ROperand::Token(token)),
        ilparser::operand_fits(OperandType::InlineType, ROperand::Token(token)),
        ilparser::operand_fits(OperandType::InlineSig, ROperand::Token(token)),
        ilparser::operand_fits(OperandType::InlineTok, ROperand::Token(token)),
        !ilparser::operand_fits(OperandType::InlineMethod, ROperand::Field(field)),
        !ilparser::operand_fits(OperandType::InlineMethod, ROperand::Type(ty)),
        !ilparser::operand_fits(OperandType::InlineField, ROperand::Method(method)),
        !ilparser::operand_fits(OperandType::InlineType, ROperand::Method(method)),
        !ilparser::operand_fits(OperandType::InlineSig, ROperand::Method(method)),
{
}

/// How many bytes stand behind the opcode.
pub open spec fn operand_bytes(t: OperandType, operand: ROperand) -> int {
    if t == OperandType::InlineNone {
        0
    } else if t == OperandType::ShortInlineBrTarget || t == OperandType::ShortInlineI || t
        == OperandType::ShortInlineVar || t == OperandType::ShortInlineArg {
        1
    } else if t == OperandType::InlineVar || t == OperandType::InlineArg {
        2
    } else if t == OperandType::InlineI8 || t == OperandType::InlineR {
        8
    } else if t == OperandType::InlineSwitch {
        match operand {
            ROperand::Switch(targets) => 4 * (1 + targets@.len() as int),
            _ => 4,
        }
    } else {
        4
    }
}

/// Where the next instruction can start.
pub open spec fn next_offset(ins: RInstruction) -> int {
    ins.offset + ins.opcode.size + operand_bytes(ins.opcode.operand_type, ins.operand)
}

/// The operand leads nowhere outside of a body with `end` bytes of code, so many
/// local variables and so many arguments.
pub open spec fn stays_inside(ins: RInstruction, end: int, locals: nat, arguments: nat) -> bool {
    match ins.operand {
        ROperand::Branch(target) => 0 <= target <= end,
        ROperand::Switch(targets) => forall|i: int|
            0 <= i < targets@.len() ==> 0 <= #[trigger] targets@[i] <= end,
        ROperand::Var(index) => if ins.opcode.operand_type == OperandType::InlineArg
            || ins.opcode.operand_type == OperandType::ShortInlineArg {
            index < arguments
        } else {
            index < locals
        },
        _ => true,
    }
}

/// The instructions follow one another, each with an operand that its opcode
/// takes and that leads nowhere outside; no clause reaches out of the code.
pub open spec fn keeps_the_rules(body: ResolvedBody, param_count: usize) -> bool {
    let code = body.instructions@;
    let end = if code.len() == 0 {
        0
    } else {
        next_offset(code.last())
    };
    &&& code.len() > 0 ==> code[0].offset >= 0
    &&& forall|k: int|
        0 < k < code.len() ==> (#[trigger] code[k]).offset >= next_offset(code[k - 1])
    &&& forall|k: int|
        0 <= k < code.len() ==> takers((#[trigger] code[k]).operand).contains(
            code[k].opcode.operand_type,
        )
    &&& forall|k: int|
        0 <= k < code.len() ==> stays_inside(
            #[trigger] code[k],
            end,
            body.locals@.len(),
            param_count as nat,
        )
    &&& forall|k: int|
        0 <= k < body.exception_handlers@.len() ==> {
            let c = #[trigger] body.exception_handlers@[k];
            &&& 0 <= c.try_offset <= c.try_offset + c.try_length <= end
            &&& 0 <= c.handler_offset <= c.handler_offset + c.handler_length <= end
            &&& c.kind == ExceptionKind::Filter ==> 0 <= c.filter_offset <= end
        }
}

proof fn lengths_agree(ins: RInstruction)
    ensures
        ilparser::end_of(ins) == next_offset(ins),
{
}

proof fn targets_inside(targets: Seq<i32>, end: int, i: int)
    requires
        0 <= i <= targets.len(),
    ensures
        ilparser::first_outside(targets, end, i) is None <==> (forall|j: int|
            i <= j < targets.len() ==> 0 <= #[trigger] targets[j] <= end),
    decreases targets.len() - i,
{
    if i < targets.len() {
        targets_inside(targets, end, i + 1);
        if ilparser::first_outside(targets, end, i) is None {
            assert forall|j: int| i <= j < targets.len() implies 0 <= #[trigger] targets[j]
                <= end by {
                if j > i {
                    assert(i + 1 <= j);
                }
            }
        }
    }
}

/// The valid bodies are those that keep the rules.
pub proof fn valid_bodies_keep_the_rules(body: ResolvedBody, param_count: usize)
    ensures
        ilparser::valid_body(body, param_count) <==> keeps_the_rules(body, param_count),
{
    let code = body.instructions@;
    let end = ilparser::code_end(body);
    assert forall|k: int| 0 <= k < code.len() implies (#[trigger] ilparser::fault_at(
        body,
        k,
        param_count,
    ) is None) == ((k > 0 ==> code[k].offset >= next_offset(code[k - 1])) && (k == 0
        ==> code[0].offset >= 0) && takers(code[k].operand).contains(code[k].opcode.operand_type)
        && stays_inside(code[k], end, body.locals@.len(), param_count as nat)) by {
        operands_fit_their_takers(code[k].opcode.operand_type, code[k].operand);
        if let ROperand::Switch(targets) = code[k].operand {
            targets_inside(targets@, end, 0);
        }
    }
    if ilparser::valid_body(body, param_count) {
        assert forall|k: int| 0 <= k < code.len() implies takers(
            (#[trigger] code[k]).operand,
        ).contains(code[k].opcode.operand_type) && stays_inside(
            code[k],
            end,
            body.locals@.len(),
            param_count as nat,
        ) by {
            assert(ilparser::fault_at(body, k, param_count) is None);
        }
        assert forall|k: int| 0 < k < code.len() implies (#[trigger] code[k]).offset
            >= next_offset(code[k - 1]) by {
            assert(ilparser::fault_at(body, k, param_count) is None);
        }
        if code.len() > 0 {
            assert(ilparser::fault_at(body, 0, param_count) is None);
        }
    }
    if keeps_the_rules(body, param_count) {
        assert forall|k: int| 0 <= k < code.len() implies (#[trigger] ilparser::fault_at(
            body,
            k,
            param_count,
        )) is None by {
            assert(code[k].offset == code[k].offset);
        }
    }
}

/// The code of an instruction that calls a method and names it.
pub open spec fn is_call(code: Code) -> bool {
    code == Code::Call || code == Code::Callvirt || code == Code::Newobj
}

/// A body that calls a method, whichever it is, and returns is valid.
pub proof fn calling_and_returning_is_valid(
    body: ResolvedBody,
    call: Code,
    method: MethodId,
    param_count: usize,
)
    requires
        is_call(call),
        body.instructions@.len() == 2,
        body.instructions@[0].offset == 0,
        body.instructions@[0].opcode@ == opcodes::described(call),
        body.instructions@[0].operand == ROperand::Method(method),
        body.instructions@[1].offset == 5,
        body.instructions@[1].opcode@ == opcodes::described(Code::Ret),
        body.instructions@[1].operand == ROperand::Empty,
        body.exception_handlers@.len() == 0,
    ensures
        ilparser::valid_body(body, param_count),
        ilparser::code_end(body) == 6,
{
    reveal(opcodes::operand_type);
    reveal(opcodes::escaped);
    let code = body.instructions@;
    assert(code[0].opcode@.operand_type == code[0].opcode.operand_type);
    assert(code[1].opcode@.operand_type == code[1].opcode.operand_type);
    assert(code[0].opcode@.size == code[0].opcode.size);
    assert(code[1].opcode@.size == code[1].opcode.size);
    assert forall|k: int| 0 <= k < code.len() implies (#[trigger] ilparser::fault_at(
        body,
        k,
        param_count,
    )) is None by {
        assert(k == 0 || k == 1);
    }
}

/// A body of a branch and a return is valid if the branch stays inside the code
/// or goes to its end, and not otherwise.
pub proof fn branch_is_valid_inside_the_code(body: ResolvedBody, target: i32, param_count: usize)
    requires
        body.instructions@.len() == 2,
        body.instructions@[0].offset == 0,
        body.instructions@[0].opcode@ == opcodes::described(Code::Br),
        body.instructions@[0].operand == ROperand::Branch(target),
        body.instructions@[1].offset == 5,
        body.instructions@[1].opcode@ == opcodes::described(Code::Ret),
        body.instructions@[1].operand == ROperand::Empty,
        body.exception_handlers@.len() == 0,
    ensures
        ilparser::valid_body(body, param_count) <==> 0 <= target <= 6,
{
    reveal(opcodes::operand_type);
    reveal(opcodes::escaped);
    let code = body.instructions@;
    assert(code[0].opcode@.operand_type == code[0].opcode.operand_type);
    assert(code[1].opcode@.operand_type == code[1].opcode.operand_type);
    assert(code[0].opcode@.size == code[0].opcode.size);
    assert(code[1].opcode@.size == code[1].opcode.size);
    assert forall|k: int| 0 <= k < code.len() && 0 <= target <= 6 implies (
    #[trigger] ilparser::fault_at(body, k, param_count)) is None by {
        assert(k == 0 || k == 1);
    }
    assert(0 <= target <= 6 <==> ilparser::fault_at(body, 0, param_count) is None);
}

/// Two instructions that overlap are never valid.
pub proof fn overlapping_instructions_are_refused(body: ResolvedBody, k: int, param_count: usize)
    requires
        0 < k < body.instructions@.len(),
        body.instructions@[k].offset < next_offset(body.instructions@[k - 1]),
    ensures
        !ilparser::valid_body(body, param_count),
{
    valid_bodies_keep_the_rules(body, param_count);
}

/// Where the code ends.
pub proof fn code_ends_behind_its_last_instruction(body: ResolvedBody)
    ensures
        body.instructions@.len() == 0 ==> ilparser::code_end(body) == 0,
        body.instructions@.len() > 0 ==> ilparser::code_end(body) == next_offset(
            body.instructions@.last(),
        ),
{
}

/// The offsets that are gone to are the targets of branches and those that
/// switches list, and no others.
pub proof fn targets_are_those_of_branches_and_switches(body: ResolvedBody, target: i32)
    ensures
        ilparser::reached(body, target, body.instructions@.len() as int) <==> exists|k: int|
            0 <= k < body.instructions@.len() && {
                let operand = (#[trigger] body.instructions@[k]).operand;
                operand == ROperand::Branch(target) || (operand is Switch
                    && operand->Switch_0@.contains(target))
            },
{
    if ilparser::reached(body, target, body.instructions@.len() as int) {
        let k = choose|k: int|
            0 <= k < body.instructions@.len() && ilparser::goes_to(
                #[trigger] body.instructions@[k],
                target,
            );
        let operand = body.instructions@[k].operand;
        assert(operand == ROperand::Branch(target) || (operand is Switch
            && operand->Switch_0@.contains(target)));
    }
    if exists|k: int|
        0 <= k < body.instructions@.len() && {
            let operand = (#[trigger] body.instructions@[k]).operand;
            operand == ROperand::Branch(target) || (operand is Switch
                && operand->Switch_0@.contains(target))
        } {
        let k = choose|k: int|
            0 <= k < body.instructions@.len() && {
                let operand = (#[trigger] body.instructions@[k]).operand;
                operand == ROperand::Branch(target) || (operand is Switch
                    && operand->Switch_0@.contains(target))
            };
        assert(ilparser::goes_to(body.instructions@[k], target));
    }
}

/// Ascending numbers are sorted, and none of them comes twice.
pub proof fn ascending_numbers_are_distinct(v: Seq<i32>)
    ensures
        ilparser::ascending(v) <==> v.no_duplicates() && (forall|i: int, j: int|
            0 <= i < j < v.len() ==> v[i] <= v[j]),
{
    if v.no_duplicates() && (forall|i: int, j: int| 0 <= i < j < v.len() ==> v[i] <= v[j]) {
        assert forall|i: int, j: int| 0 <= i < j < v.len() implies v[i] < v[j] by {
            assert(v[i] != v[j]);
        }
    }
}

/// What is wrong with an instruction names what it leads to: the target outside
/// of the code, or the argument or local variable that is not there.
pub proof fn faults_name_the_culprit(body: ResolvedBody, k: int, param_count: usize)
    requires
        0 <= k < body.instructions@.len(),
    ensures
        ({
            let ins = body.instructions@[k];
            let end = next_offset(body.instructions@.last());
            let fault = ilparser::fault_at(body, k, param_count);
            let earliest = if k == 0 {
                0
            } else {
                next_offset(body.instructions@[k - 1])
            };
            let fits = ins.offset >= earliest && takers(ins.operand).contains(
                ins.opcode.operand_type,
            );
            let argument = ins.opcode.operand_type == OperandType::InlineArg
                || ins.opcode.operand_type == OperandType::ShortInlineArg;
            &&& ins.offset < earliest <==> fault == Some(Fault::Overlap)
            &&& ins.offset >= earliest && !takers(ins.operand).contains(ins.opcode.operand_type)
                <==> fault == Some(Fault::Shape)
            &&& fits ==> (ins.operand matches ROperand::Branch(target) ==> (target < 0 || target
                > end) ==> fault == Some(Fault::Branch(target)))
            &&& fits ==> (ins.operand matches ROperand::Var(index) ==> (argument && index
                >= param_count) ==> fault == Some(Fault::Argument(index)))
            &&& fits ==> (ins.operand matches ROperand::Var(index) ==> (!argument && index
                >= body.locals@.len()) ==> fault == Some(Fault::Variable(index)))
            &&& fits ==> (ins.operand matches ROperand::Switch(targets) ==> (targets@.len() > 0 && (
            targets@[0] < 0 || targets@[0] > end)) ==> fault == Some(Fault::Switch(targets@[0])))
        }),
{
    let ins = body.instructions@[k];
    operands_fit_their_takers(ins.opcode.operand_type, ins.operand);
    lengths_agree(body.instructions@.last());
    if k > 0 {
        lengths_agree(body.instructions@[k - 1]);
    }
}

/// The first target of a switch that lies outside of the code is the one that is
/// named.
pub proof fn first_target_outside_is_named(targets: Seq<i32>, end: int, k: int)
    requires
        0 <= k < targets.len(),
        targets[k] < 0 || targets[k] > end,
        forall|j: int| 0 <= j < k ==> 0 <= #[trigger] targets[j] <= end,
    ensures
        ilparser::first_outside(targets, end, 0) == Some(targets[k]),
{
    outside_from(targets, end, 0, k);
}

proof fn outside_from(targets: Seq<i32>, end: int, i: int, k: int)
    requires
        0 <= i <= k < targets.len(),
        targets[k] < 0 || targets[k] > end,
        forall|j: int| 0 <= j < k ==> 0 <= #[trigger] targets[j] <= end,
    ensures
        ilparser::first_outside(targets, end, i) == Some(targets[k]),
    decreases k - i,
{
    if i < k {
        outside_from(targets, end, i + 1, k);
    }
}

/// What is said of faults.
pub proof fn faults_are_told(
    body: ResolvedBody,
    k: int,
    param_count: usize,
    target: i32,
    index: u16,
)
    requires
        0 <= k < body.instructions@.len(),
    ensures
        ({
            let start = "instruction #"@ + text::decimal(k as nat) + ": "@;
            let end = next_offset(body.instructions@.last());
            let bounds = " outside [0, "@ + text::signed_decimal(end) + "]"@;
            let number = text::signed_decimal(target as int);
            &&& ilparser::fault_text(body, k, param_count, Fault::Branch(target)) == start + (
            "branch target "@ + number + bounds)
            &&& ilparser::fault_text(body, k, param_count, Fault::Switch(target)) == start + (
            "switch target "@ + number + bounds)
            &&& ilparser::fault_text(body, k, param_count, Fault::Argument(index)) == start + (
            "argument index "@ + text::decimal(index as nat) + " out of range ("@ + text::decimal(
                param_count as nat,
            ) + " parameter slots)"@)
            &&& ilparser::fault_text(body, k, param_count, Fault::Variable(index)) == start + (
            "variable index "@ + text::decimal(index as nat) + " out of range ("@ + text::decimal(
                body.locals@.len(),
            ) + " locals)"@)
        }),
{
    lengths_agree(body.instructions@.last());
}

} // verus!
