use wit_bindgen_zig::emit::Instruction;
use wit_bindgen_zig::types::DirectionKind;
use wit_bindgen_zig::types::Function;
use wit_bindgen_zig::types::GenError;
use wit_bindgen_zig::types::Param;
use wit_bindgen_zig::types::ResultShape;
use wit_bindgen_zig::types::TypeKind;
use wit_bindgen_zig::types::WasmSignature;
use wit_bindgen_zig::types::WasmType;
use wit_bindgen_zig::types::WitType;
use wit_bindgen_zig::types::wit_type_to_zig_type;
use wit_bindgen_zig::world::export;
use wit_bindgen_zig::world::import;

fn param(name: &str, ty: WitType) -> Param {
    Param { name: name.to_string(), ty }
}

fn sig(params: Vec<WasmType>, results: Vec<WasmType>) -> WasmSignature {
    WasmSignature { params, results }
}

#[test]
fn scenario_import_add() {
    let func = Function {
        name: "add".to_string(),
        params: vec![param("a", WitType::S32), param("b", WitType::S32)],
        results: ResultShape::Anon(WitType::S32),
    };
    let insts = vec![
        Instruction::GetArg { nth: 0 },
        Instruction::I32FromS32,
        Instruction::GetArg { nth: 1 },
        Instruction::I32FromS32,
        Instruction::CallWasm {
            name: "add".to_string(),
            sig: sig(vec![WasmType::I32, WasmType::I32], vec![WasmType::I32]),
        },
        Instruction::S32FromI32,
        Instruction::Return { amt: 1 },
    ];
    let out = import("$root", &func, &insts).unwrap();
    let expected = "pub fn add(a: i32, b: i32) i32 {\n\
const ret = (struct {\n\
extern \"$root\" fn @\"add\"(i32, i32) i32;\n\
}).@\"add\"(a, b);\n\
return ret;\n\
}\n";
    assert_eq!(out, expected);
}

#[test]
fn scenario_import_tuple_result() {
    let func = Function {
        name: "pair".to_string(),
        params: vec![param("a", WitType::S32), param("b", WitType::S32)],
        results: ResultShape::Anon(WitType::Tuple(vec![WitType::S32, WitType::S32])),
    };
    let insts = vec![
        Instruction::GetArg { nth: 0 },
        Instruction::I32FromS32,
        Instruction::GetArg { nth: 1 },
        Instruction::I32FromS32,
        Instruction::ReturnPointer { size: 8, align: 4 },
        Instruction::PushReturnPointer,
        Instruction::CallWasm {
            name: "pair".to_string(),
            sig: sig(vec![WasmType::I32, WasmType::I32, WasmType::I32], vec![]),
        },
        Instruction::PushReturnPointer,
        Instruction::I32Load { offset: 0 },
        Instruction::S32FromI32,
        Instruction::PushReturnPointer,
        Instruction::I32Load { offset: 4 },
        Instruction::S32FromI32,
        Instruction::TupleLift { arity: 2 },
        Instruction::Flush { amt: 1 },
        Instruction::Return { amt: 1 },
    ];
    let out = import("$root", &func, &insts).unwrap();
    let expected = "pub fn pair(a: i32, b: i32) struct{ i32, i32 } {\n\
var ret_area: [8]u8 align(4) = undefined;\n\
(struct {\n\
extern \"$root\" fn @\"pair\"(i32, i32, i32) void;\n\
}).@\"pair\"(a, b, @intFromPtr(&ret_area));\n\
const tmp0 = @as(*const i32, @ptrFromInt(@intFromPtr(&ret_area) + 0)).*;\n\
const tmp1 = @as(*const i32, @ptrFromInt(@intFromPtr(&ret_area) + 4)).*;\n\
return .{ tmp0, tmp1 };\n\
}\n";
    assert_eq!(out, expected);
    // The aggregate is lifted from the two values read back from the call's
    // return area, in order.
    assert!(out.contains("return .{ tmp0, tmp1 };"));
    // Load offset arithmetic spells base + offset with the width-correct
    // cast.
    assert!(out.contains("@as(*const i32, @ptrFromInt(@intFromPtr(&ret_area) + 4)).*"));
}

#[test]
fn scenario_record_type_is_refused() {
    let func = Function {
        name: "get".to_string(),
        params: vec![param("r", WitType::Record)],
        results: ResultShape::Named(vec![]),
    };
    let insts = vec![Instruction::GetArg { nth: 0 }, Instruction::Return { amt: 0 }];
    let err = import("$root", &func, &insts).unwrap_err();
    assert_eq!(err.error, GenError::UnsupportedType(TypeKind::Record));
    assert_eq!(err.function, "get");
    assert_eq!(err.direction, DirectionKind::Import);
}

#[test]
fn string_lowering_yields_pointer_then_length() {
    let func = Function {
        name: "log".to_string(),
        params: vec![param("s", WitType::String)],
        results: ResultShape::Named(vec![]),
    };
    let insts = vec![
        Instruction::GetArg { nth: 0 },
        Instruction::StringLower,
        Instruction::CallWasm {
            name: "log".to_string(),
            sig: sig(vec![WasmType::I32, WasmType::I32], vec![]),
        },
        Instruction::Return { amt: 0 },
    ];
    let out = import("$root", &func, &insts).unwrap();
    let expected = "pub fn log(s: []const u8) void {\n\
(struct {\n\
extern \"$root\" fn @\"log\"(i32, i32) void;\n\
}).@\"log\"(@as(i32, @intCast(@intFromPtr(s.ptr))), @as(i32, @intCast(s.len)));\n\
}\n";
    assert_eq!(out, expected);
    // A zero-result function body holds no return statement.
    assert!(!out.contains("return"));
}

#[test]
fn one_result_function_returns_exactly_once() {
    let func = Function {
        name: "answer".to_string(),
        params: vec![],
        results: ResultShape::Anon(WitType::U16),
    };
    let insts = vec![
        Instruction::CallWasm {
            name: "answer".to_string(),
            sig: sig(vec![], vec![WasmType::I32]),
        },
        Instruction::U16FromI32,
        Instruction::Return { amt: 1 },
    ];
    let out = import("$root", &func, &insts).unwrap();
    assert_eq!(out.matches("return").count(), 1);
    assert!(out.contains("return @as(u16, @intCast(ret));"));
}

#[test]
fn numeric_conversions_spell_width_correct_casts() {
    let func = Function {
        name: "mix".to_string(),
        params: vec![
            param("a", WitType::U8),
            param("b", WitType::S16),
            param("c", WitType::U64),
            param("d", WitType::Char),
        ],
        results: ResultShape::Named(vec![]),
    };
    let insts = vec![
        Instruction::GetArg { nth: 0 },
        Instruction::I32FromU8,
        Instruction::GetArg { nth: 1 },
        Instruction::I32FromS16,
        Instruction::GetArg { nth: 2 },
        Instruction::I64FromU64,
        Instruction::GetArg { nth: 3 },
        Instruction::I32FromChar,
        Instruction::CallWasm {
            name: "mix".to_string(),
            sig: sig(
                vec![WasmType::I32, WasmType::I32, WasmType::I64, WasmType::I32],
                vec![],
            ),
        },
        Instruction::Return { amt: 0 },
    ];
    let out = import("$root", &func, &insts).unwrap();
    let expected = "pub fn mix(a: u8, b: i16, c: u64, d: u32) void {\n\
(struct {\n\
extern \"$root\" fn @\"mix\"(i32, i32, i64, i32) void;\n\
}).@\"mix\"(@as(i32, @intCast(a)), @as(i32, @intCast(b)), @as(i64, @bitCast(c)), @as(i32, @intCast(d)));\n\
}\n";
    assert_eq!(out, expected);
}

#[test]
fn store_instructions_spell_base_plus_offset() {
    let func = Function {
        name: "put".to_string(),
        params: vec![param("v", WitType::U8), param("addr", WitType::U32)],
        results: ResultShape::Named(vec![]),
    };
    let insts = vec![
        Instruction::GetArg { nth: 0 },
        Instruction::GetArg { nth: 1 },
        Instruction::I32Store8 { offset: 3 },
        Instruction::Return { amt: 0 },
    ];
    let out = import("$root", &func, &insts).unwrap();
    let expected = "pub fn put(v: u8, addr: u32) void {\n\
@as(*u8, @ptrFromInt(addr + 3)).* = @as(u8, @intCast(v));\n\
}\n";
    assert_eq!(out, expected);
}

#[test]
fn tuple_lowering_names_one_operand_per_element() {
    let func = Function {
        name: "send".to_string(),
        params: vec![param("t", WitType::Tuple(vec![WitType::S32, WitType::S32]))],
        results: ResultShape::Named(vec![]),
    };
    let insts = vec![
        Instruction::GetArg { nth: 0 },
        Instruction::TupleLower { arity: 2 },
        Instruction::I32FromS32,
        Instruction::CallWasm {
            name: "send".to_string(),
            sig: sig(vec![WasmType::I32, WasmType::I32], vec![]),
        },
        Instruction::Return { amt: 0 },
    ];
    let out = import("$root", &func, &insts).unwrap();
    assert!(out.contains("@\"send\"(t0, t1);"));
}

#[test]
fn unsupported_instruction_tag_is_reported() {
    let func = Function {
        name: "bad".to_string(),
        params: vec![],
        results: ResultShape::Named(vec![]),
    };
    let insts = vec![Instruction::Unsupported { tag: "ListLower".to_string() }];
    let err = import("$root", &func, &insts).unwrap_err();
    assert_eq!(err.error, GenError::UnsupportedInstruction("ListLower".to_string()));
    assert_eq!(err.function, "bad");
    assert_eq!(err.direction, DirectionKind::Import);
}

#[test]
fn named_results_have_no_convention() {
    let func = Function {
        name: "stats".to_string(),
        params: vec![],
        results: ResultShape::Named(vec![param("count", WitType::U32)]),
    };
    let insts: Vec<Instruction> = vec![];
    let err = import("$root", &func, &insts).unwrap_err();
    assert_eq!(err.error, GenError::MissingResultConvention);
}

#[test]
fn operand_underflow_is_malformed() {
    let func = Function {
        name: "broken".to_string(),
        params: vec![],
        results: ResultShape::Anon(WitType::S32),
    };
    let insts = vec![Instruction::Return { amt: 1 }];
    let err = import("$root", &func, &insts).unwrap_err();
    assert_eq!(err.error, GenError::MalformedSequence);
}

#[test]
fn primitive_spellings_are_exact() {
    let cases = vec![
        (WitType::U8, "u8"),
        (WitType::U16, "u16"),
        (WitType::U32, "u32"),
        (WitType::U64, "u64"),
        (WitType::S8, "i8"),
        (WitType::S16, "i16"),
        (WitType::S32, "i32"),
        (WitType::S64, "i64"),
        (WitType::Float32, "f32"),
        (WitType::Float64, "f64"),
        (WitType::Char, "u32"),
        (WitType::String, "[]const u8"),
    ];
    for (ty, expected) in cases {
        assert_eq!(wit_type_to_zig_type(&ty).unwrap(), expected);
    }
}

#[test]
fn spelling_is_deterministic() {
    let a = wit_type_to_zig_type(&WitType::Tuple(vec![WitType::U8, WitType::S64])).unwrap();
    let b = wit_type_to_zig_type(&WitType::Tuple(vec![WitType::U8, WitType::S64])).unwrap();
    assert_eq!(a, b);
    assert_eq!(a, "struct{ u8, i64 }");
}

#[test]
fn empty_tuple_spelling() {
    let a = wit_type_to_zig_type(&WitType::Tuple(vec![])).unwrap();
    assert_eq!(a, "struct{  }");
}

#[test]
fn nested_unsupported_element_is_reported() {
    let err = wit_type_to_zig_type(&WitType::Tuple(vec![WitType::U8, WitType::List])).unwrap_err();
    assert_eq!(err, GenError::UnsupportedType(TypeKind::List));
}

#[test]
fn bool_is_unsupported() {
    let err = wit_type_to_zig_type(&WitType::Bool).unwrap_err();
    assert_eq!(err, GenError::UnsupportedType(TypeKind::Bool));
}

#[test]
fn export_with_two_result_slots_has_no_convention() {
    let func = Function {
        name: "twin".to_string(),
        params: vec![],
        results: ResultShape::Anon(WitType::Tuple(vec![WitType::S32, WitType::S32])),
    };
    let two = sig(vec![], vec![WasmType::I32, WasmType::I32]);
    let err = export(None, &func, &two, &vec![]).unwrap_err();
    assert_eq!(err.error, GenError::MissingResultConvention);
    assert_eq!(err.function, "twin");
    assert_eq!(err.direction, DirectionKind::Export);
}

#[test]
fn low_level_call_in_export_direction_is_malformed() {
    let func = Function {
        name: "odd".to_string(),
        params: vec![],
        results: ResultShape::Named(vec![]),
    };
    let empty = sig(vec![], vec![]);
    let insts = vec![Instruction::CallWasm { name: "odd".to_string(), sig: sig(vec![], vec![]) }];
    let err = export(None, &func, &empty, &insts).unwrap_err();
    assert_eq!(err.error, GenError::MalformedSequence);
    assert_eq!(err.direction, DirectionKind::Export);
}

#[test]
fn flush_needs_its_operands() {
    let func = Function {
        name: "hollow".to_string(),
        params: vec![],
        results: ResultShape::Named(vec![]),
    };
    let insts = vec![Instruction::Flush { amt: 1 }];
    let err = import("$root", &func, &insts).unwrap_err();
    assert_eq!(err.error, GenError::MalformedSequence);
}

#[test]
fn leftover_operands_are_malformed() {
    let func = Function {
        name: "extra".to_string(),
        params: vec![Param { name: "x".to_string(), ty: WitType::S32 }],
        results: ResultShape::Named(vec![]),
    };
    let insts = vec![Instruction::GetArg { nth: 0 }, Instruction::Return { amt: 0 }];
    let err = import("$root", &func, &insts).unwrap_err();
    assert_eq!(err.error, GenError::MalformedSequence);
}

#[test]
fn return_of_two_operands_has_no_convention() {
    let func = Function {
        name: "both".to_string(),
        params: vec![param("a", WitType::S32), param("b", WitType::S32)],
        results: ResultShape::Anon(WitType::S32),
    };
    let insts = vec![
        Instruction::GetArg { nth: 0 },
        Instruction::GetArg { nth: 1 },
        Instruction::Return { amt: 2 },
    ];
    let err = import("$root", &func, &insts).unwrap_err();
    assert_eq!(err.error, GenError::MissingResultConvention);
    assert_eq!(err.function, "both");
    assert_eq!(err.direction, DirectionKind::Import);
}

#[test]
fn same_width_reinterpretations_are_bit_casts() {
    let func = Function {
        name: "keep".to_string(),
        params: vec![param("x", WitType::U32)],
        results: ResultShape::Anon(WitType::U32),
    };
    let insts = vec![
        Instruction::GetArg { nth: 0 },
        Instruction::I32FromU32,
        Instruction::CallWasm {
            name: "keep".to_string(),
            sig: sig(vec![WasmType::I32], vec![WasmType::I32]),
        },
        Instruction::U32FromI32,
        Instruction::Return { amt: 1 },
    ];
    let out = import("$root", &func, &insts).unwrap();
    let expected = "pub fn keep(x: u32) u32 {\n\
const ret = (struct {\n\
extern \"$root\" fn @\"keep\"(i32) i32;\n\
}).@\"keep\"(@as(i32, @bitCast(x)));\n\
return @as(u32, @bitCast(ret));\n\
}\n";
    assert_eq!(out, expected);
}
