use cecli::cil::{Code, OpCode};
use cecli::error::Error;
use cecli::model::body::{
    ExceptionHandlerIL, ExceptionKind, LocalVariable, RInstruction, ROperand, ResolvedBody,
};
use cecli::model::types::TypeDesc;
use cecli::rocks::ilparser::{
    code_size, collect_branch_targets, encoded_size, find_by_offset, validate_body,
    validate_body_for, visit,
};
use cecli::token::Token;

fn ins(offset: i32, opcode: OpCode, operand: ROperand) -> RInstruction {
    RInstruction { offset, opcode, operand }
}

/// Layout:
/// `nop@0 | ldc.i4.s 42@1 | stloc.0@3 | br.s ->10@4 | ret@6 |
///  switch(20,12)@7..19 | ldloc.0@20 | ret@21`, code size 22.
fn ok_body() -> ResolvedBody {
    ResolvedBody {
        max_stack: 1,
        init_locals: true,
        local_var_sig_tok: Token(0x11000001),
        locals: vec![LocalVariable {
            index: 0,
            ty: TypeDesc::TypedByRef,
            pinned: false,
        }],
        instructions: vec![
            ins(0, Code::Nop.opcode(), ROperand::Empty),
            ins(1, Code::Ldc_I4_S.opcode(), ROperand::Int8(42)),
            ins(3, Code::Stloc_0.opcode(), ROperand::Empty),
            ins(4, Code::Br_S.opcode(), ROperand::Branch(10)),
            ins(6, Code::Ret.opcode(), ROperand::Empty),
            // switch with two arms, encoded at offset 7:
            // 1 byte opcode + 4 byte count + 2*4 targets = 13 bytes.
            ins(7, Code::Switch.opcode(), ROperand::Switch(vec![20, 12])),
            ins(20, Code::Ldloc_0.opcode(), ROperand::Empty),
            ins(21, Code::Ret.opcode(), ROperand::Empty),
        ],
        exception_handlers: Vec::new(),
    }
}

#[test]
fn valid_body_passes() {
    let body = ok_body();
    assert_eq!(code_size(&body), 22);
    validate_body(&body).expect("body is well formed");
}

#[test]
fn wrong_operand_kind_is_rejected() {
    // ldc.i4.s demands Int8 (ShortInlineI); carrying None is malformed.
    let mut body = ok_body();
    body.instructions[1].operand = ROperand::Empty;
    let err = validate_body(&body).unwrap_err().message();
    assert!(err.contains("ldc.i4.s"), "message names opcode: {err}");
}

#[test]
fn branch_outside_code_is_rejected() {
    let mut body = ok_body();
    body.instructions[3].operand = ROperand::Branch(-1);
    assert!(validate_body(&body).is_err());

    let mut body = ok_body();
    body.instructions[3].operand = ROperand::Branch(999);
    assert!(validate_body(&body).is_err());
}

/// Zero-local body exercising the argument opcodes:
/// `ldarg.s 0@0` (2 bytes) | `ret@2`.
fn arg_body() -> ResolvedBody {
    ResolvedBody {
        locals: Vec::new(),
        instructions: vec![
            ins(0, Code::Ldarg_S.opcode(), ROperand::Var(0)),
            ins(2, Code::Ret.opcode(), ROperand::Empty),
        ],
        ..Default::default()
    }
}

#[test]
fn ldarg_on_zero_local_method_passes_with_parameter_count() {
    let body = arg_body();
    // The macro `ldarg.0` carries no operand and always passes.
    validate_body_for(&body, 1).expect("one parameter slot covers ldarg.0/ldarg.s 0");
}

#[test]
fn arg_indices_validate_against_supplied_parameter_count() {
    let mut body = arg_body();
    assert!(
        validate_body_for(&body, 0).is_err(),
        "ldarg.s 0 needs at least one parameter slot"
    );
    body.instructions[0].operand = ROperand::Var(3);
    assert!(validate_body_for(&body, 4).is_ok());
    assert!(validate_body_for(&body, 3).is_err());
}

#[test]
fn validate_body_without_provider_skips_arg_range_check() {
    let body = arg_body();
    // No parameter count is known here; well-shaped args must pass.
    validate_body(&body).expect("argument indices are unchecked without a provider");
}

#[test]
fn local_indices_still_validate_without_parameter_count() {
    // stloc.s into a nonexistent local stays an error even though the
    // wrapper passes usize::MAX as the parameter count.
    let mut body = ok_body();
    body.instructions[6].opcode = Code::Stloc_S.opcode();
    body.instructions[6].operand = ROperand::Var(9); // only 1 local
    assert!(validate_body(&body).is_err());
    assert!(validate_body_for(&body, usize::MAX).is_err());
}

#[test]
fn switch_arm_outside_code_is_rejected() {
    let mut body = ok_body();
    body.instructions[5].operand = ROperand::Switch(vec![20, 23]);
    assert!(validate_body(&body).is_err());
}

#[test]
fn variable_index_must_exist() {
    let mut body = ok_body();
    body.instructions[6].opcode = Code::Ldloc_S.opcode();
    body.instructions[6].operand = ROperand::Var(1); // only 1 local
    assert!(validate_body(&body).is_err());
    assert_eq!(find_by_offset(&body, 20), Some(6));
}

#[test]
fn exception_ranges_must_stay_inside_code() {
    let mut body = ok_body();
    body.exception_handlers.push(ExceptionHandlerIL {
        kind: ExceptionKind::Catch,
        try_offset: 0,
        try_length: 22,
        filter_offset: 0,
        handler_offset: 0,
        handler_length: 22,
        catch_type: None,
    });
    validate_body(&body).expect("ranges exactly cover the code");

    body.exception_handlers[0].handler_length = 23;
    assert!(validate_body(&body).is_err());
}

#[test]
fn branch_collection_includes_switch_arms_sorted_unique() {
    let body = ok_body();
    assert_eq!(collect_branch_targets(&body), vec![10, 12, 20]);
}

#[test]
fn visit_walks_all_instructions_with_indices() {
    let body = ok_body();
    let seen: Vec<(usize, i32)> = visit(&body).iter().map(|(idx, i)| (*idx, i.offset)).collect();
    assert_eq!(seen, vec![(0, 0), (1, 1), (2, 3), (3, 4), (4, 6), (5, 7), (6, 20), (7, 21)]);
}

#[test]
fn find_by_offset_hits_and_misses() {
    let body = ok_body();
    assert_eq!(find_by_offset(&body, 0), Some(0));
    assert_eq!(find_by_offset(&body, 7), Some(5));
    assert_eq!(find_by_offset(&body, 8), None);
    assert_eq!(find_by_offset(&body, 21), Some(7));
}

#[test]
fn empty_and_overlapping_bodies() {
    assert_eq!(code_size(&ResolvedBody::default()), 0);
    assert!(validate_body(&ResolvedBody::default()).is_ok());

    let mut body = ok_body();
    body.instructions[2].offset = 0; // overlaps nop
    assert!(validate_body(&body).is_err());
}

#[test]
fn messages_name_the_instruction() {
    let mut body = ok_body();
    body.instructions[3].operand = ROperand::Branch(-1);
    let err = validate_body(&body).unwrap_err();
    assert!(matches!(err, Error::InvalidOperation(_)));
    assert_eq!(err.message(), "invalid operation: instruction #3: branch target -1 outside [0, 22]");

    let mut body = ok_body();
    body.instructions[2].offset = 0;
    assert_eq!(
        validate_body(&body).unwrap_err().message(),
        "invalid operation: instruction #2: offset 0 overlaps or precedes previous instruction (expected >= 3)"
    );

    let mut body = ok_body();
    body.instructions[1].operand = ROperand::Empty;
    assert_eq!(
        validate_body(&body).unwrap_err().message(),
        "invalid operation: instruction #1: opcode `ldc.i4.s` (ShortInlineI) carries incompatible operand None"
    );

    let mut body = ok_body();
    body.instructions[5].operand = ROperand::Switch(vec![20, 23]);
    assert_eq!(
        validate_body(&body).unwrap_err().message(),
        "invalid operation: instruction #5: switch target 23 outside [0, 22]"
    );

    assert_eq!(
        validate_body_for(&arg_body(), 0).unwrap_err().message(),
        "invalid operation: instruction #0: argument index 0 out of range (0 parameter slots)"
    );
}

#[test]
fn huge_offsets_are_no_panic() {
    let body = ResolvedBody {
        instructions: vec![
            ins(i32::MAX, Code::Nop.opcode(), ROperand::Empty),
            ins(i32::MAX, Code::Ret.opcode(), ROperand::Empty),
        ],
        ..Default::default()
    };
    assert!(validate_body(&body).is_err());
}

#[test]
fn filters_must_point_into_the_code() {
    let mut body = ok_body();
    body.exception_handlers.push(ExceptionHandlerIL {
        kind: ExceptionKind::Filter,
        try_offset: 0,
        try_length: 1,
        filter_offset: 22,
        handler_offset: 1,
        handler_length: 1,
        catch_type: None,
    });
    assert!(validate_body(&body).is_ok());
    body.exception_handlers[0].filter_offset = 23;
    assert!(validate_body(&body).is_err());
    body.exception_handlers[0].kind = ExceptionKind::Fault;
    assert!(validate_body(&body).is_ok());
    body.exception_handlers[0].try_length = i32::MAX;
    assert!(validate_body(&body).is_err());
}

#[test]
fn encoded_sizes_count_switch_targets() {
    assert_eq!(encoded_size(&ins(0, Code::Nop.opcode(), ROperand::Empty)), 1);
    assert_eq!(encoded_size(&ins(0, Code::Switch.opcode(), ROperand::Switch(vec![1, 2, 3]))), 17);
    assert_eq!(encoded_size(&ins(0, Code::Ldarg.opcode(), ROperand::Var(0))), 4);
}
